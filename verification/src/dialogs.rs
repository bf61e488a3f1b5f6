//! Form buffers behind the create-entity and send-message dialogs, and their
//! validation into descriptions and messages.

use vstd::prelude::*;
use crate::body::text_view;
use crate::bridge::{EntityDescription, EntityPath, MessageSource, path_name};
use crate::config::{
    AppConfig, ConfigView, NamespaceProfile, ProfileId, ProfileView, lookup, upserted,
};
use crate::connection::{ConnectionView, NamespaceConnection, error_message, spec_parse_connection};
use crate::secrets::{SecretKind, SecretRef, SecretStore, SecretString};
use crate::duration::{Duration, int_token, parse_int_digits};
use crate::message::{OutboundMessage, OutboundView, clone_opt, props_view};
use crate::model::{
    QueueProperties, RuleFilter, RuleProperties, SubscriptionProperties, TopicProperties,
};
use crate::text::{
    chars_eq, is_ws, lemma_trim_window, lower, push_str, slice_to_vec, str_chars,
    string_from_chars, to_lower, trim, trim_bounds, trim_end, trim_start,
};
use crate::view_state::CreateKind;

verus! {

broadcast use vstd::string::group_string_axioms;

// ---- text helpers --------------------------------------------------------------------------

/// `s` without leading and trailing whitespace.
fn trimmed(s: &str) -> (r: String)
    ensures
        r@ == trim(s@),
{
    let cs = str_chars(s);
    let (a, b) = trim_bounds(cs.as_slice(), 0, cs.len());
    assert(cs@.subrange(0, cs@.len() as int) =~= s@);
    string_from_chars(slice_to_vec(cs.as_slice(), a, b).as_slice())
}

/// What `str::parse::<u64>` accepts: an optional `+` and then decimal digits
/// whose value fits.
pub open spec fn spec_parse_u64(s: Seq<char>) -> Option<u64> {
    let d = if s.len() > 0 && s[0] == '+' {
        s.drop_first()
    } else {
        s
    };
    match int_token(d) {
        Some(v) => Some(v as u64),
        None => None,
    }
}

/// What `str::parse::<i64>` accepts: an optional sign and then decimal
/// digits whose signed value fits.
pub open spec fn spec_parse_i64(s: Seq<char>) -> Option<i64> {
    if s.len() > 0 && s[0] == '-' {
        match int_token(s.drop_first()) {
            Some(v) => if v <= 0x8000_0000_0000_0000 {
                Some((-v) as i64)
            } else {
                None
            },
            None => None,
        }
    } else {
        match spec_parse_u64(s) {
            Some(v) => if v <= i64::MAX {
                Some(v as i64)
            } else {
                None
            },
            None => None,
        }
    }
}

/// Parse a decimal `u64` as `str::parse` does.
pub fn parse_u64(s: &str) -> (r: Option<u64>)
    ensures
        r == spec_parse_u64(s@),
{
    let cs = str_chars(s);
    let n = cs.len();
    let start: usize = if n > 0 && cs[0] == '+' {
        1
    } else {
        0
    };
    proof {
        if start == 1 {
            assert(cs@.subrange(1, n as int) =~= s@.drop_first());
        } else {
            assert(cs@.subrange(0, n as int) =~= s@);
        }
    }
    parse_int_digits(cs.as_slice(), start, n)
}

/// Parse a decimal `i64` as `str::parse` does.
pub fn parse_i64(s: &str) -> (r: Option<i64>)
    ensures
        r == spec_parse_i64(s@),
{
    let cs = str_chars(s);
    let n = cs.len();
    if n > 0 && cs[0] == '-' {
        assert(cs@.subrange(1, n as int) =~= s@.drop_first());
        match parse_int_digits(cs.as_slice(), 1, n) {
            Some(v) => if v <= 0x8000_0000_0000_0000 {
                let r: i64 = if v == 0x8000_0000_0000_0000 {
                    i64::MIN
                } else {
                    -(v as i64)
                };
                Some(r)
            } else {
                None
            },
            None => None,
        }
    } else {
        match parse_u64(s) {
            Some(v) => if v <= 0x7fff_ffff_ffff_ffff {
                Some(v as i64)
            } else {
                None
            },
            None => None,
        }
    }
}

// ---- create dialog ---------------------------------------------------------------------------

/// Form buffer for the create dialog, validated into an
/// [`EntityDescription`] on submit.
#[derive(Debug)]
pub struct CreateDialog {
    pub kind: CreateKind,
    pub name: String,
    pub requires_session: bool,
    pub requires_duplicate_detection: bool,
    pub enable_partitioning: bool,
    pub dead_lettering_on_message_expiration: bool,
    pub support_ordering: bool,
    pub max_delivery_count: i32,
    pub lock_duration_secs: u32,
    /// SQL filter expression for new rules.
    pub sql_filter: String,
    pub sql_action: String,
    pub error: Option<String>,
}

/// The dialog's heading.
pub open spec fn create_title(kind: CreateKind) -> Seq<char> {
    match kind {
        CreateKind::Queue => "Create queue"@,
        CreateKind::Topic => "Create topic"@,
        CreateKind::Subscription { topic } => "Create subscription on '"@ + topic@ + "'"@,
        CreateKind::Rule { topic, subscription } => "Add rule to '"@ + topic@ + "/"@
            + subscription@ + "'"@,
    }
}

pub open spec fn empty_name_error() -> Seq<char> {
    "Enter a name."@
}

pub open spec fn bad_name_error() -> Seq<char> {
    "Entity names must be at most 260 characters and cannot start or end with '/'."@
}

pub open spec fn empty_filter_error() -> Seq<char> {
    "Enter a SQL filter expression (e.g. 1=1)."@
}

/// An entity name is refused when it is empty, longer than 260 bytes, or
/// starts or ends with `/`; the text says why.
pub open spec fn name_error(name: Seq<char>) -> Option<Seq<char>> {
    if name.len() == 0 {
        Some(empty_name_error())
    } else if vstd::utf8::encode_utf8(name).len() > 260 || name[0] == '/' || name.last() == '/' {
        Some(bad_name_error())
    } else {
        None
    }
}

/// The rule action: the trimmed text, or none when it is empty.
pub open spec fn action_of(text: Seq<char>) -> Option<Seq<char>> {
    if trim(text).len() == 0 {
        None
    } else {
        Some(trim(text))
    }
}

impl CreateDialog {
    pub fn new(kind: CreateKind) -> (r: CreateDialog)
        ensures
            r.kind == kind,
            r.name@.len() == 0,
            !r.requires_session,
            !r.requires_duplicate_detection,
            !r.enable_partitioning,
            !r.dead_lettering_on_message_expiration,
            !r.support_ordering,
            r.max_delivery_count == 10,
            r.lock_duration_secs == 60,
            r.sql_filter@ == "1=1"@,
            r.sql_action@.len() == 0,
            r.error is None,
    {
        CreateDialog {
            kind,
            name: String::new(),
            requires_session: false,
            requires_duplicate_detection: false,
            enable_partitioning: false,
            dead_lettering_on_message_expiration: false,
            support_ordering: false,
            max_delivery_count: 10,
            lock_duration_secs: 60,
            sql_filter: "1=1".to_owned(),
            sql_action: String::new(),
            error: None,
        }
    }

    pub fn title(&self) -> (r: String)
        ensures
            r@ == create_title(self.kind),
    {
        let mut v: Vec<char> = Vec::new();
        match &self.kind {
            CreateKind::Queue => push_str(&mut v, "Create queue"),
            CreateKind::Topic => push_str(&mut v, "Create topic"),
            CreateKind::Subscription { topic } => {
                push_str(&mut v, "Create subscription on '");
                push_str(&mut v, topic.as_str());
                push_str(&mut v, "'");
            },
            CreateKind::Rule { topic, subscription } => {
                push_str(&mut v, "Add rule to '");
                push_str(&mut v, topic.as_str());
                push_str(&mut v, "/");
                push_str(&mut v, subscription.as_str());
                push_str(&mut v, "'");
            },
        }
        string_from_chars(v.as_slice())
    }

    /// Validate the buffer into a description; on failure set `error` and
    /// give `None`. A description starts from the service defaults and takes
    /// the trimmed name and the form's settings for its kind.
    pub fn build(&mut self) -> (r: Option<EntityDescription>)
        ensures
            *final(self) == (CreateDialog { error: final(self).error, ..*old(self) }),
            r is Some ==> *final(self) == *old(self),
            r is None ==> final(self).error is Some,
            ({
                let name = trim(old(self).name@);
                let filter = trim(old(self).sql_filter@);
                match name_error(name) {
                    Some(e) => r is None && text_view(final(self).error) == Some(e),
                    None => match old(self).kind {
                        CreateKind::Rule { topic, subscription } => if filter.len() == 0 {
                            r is None && text_view(final(self).error) == Some(empty_filter_error())
                        } else {
                            r matches Some(EntityDescription::Rule(p)) && p.topic@ == topic@
                                && p.subscription@ == subscription@ && p.name@ == name
                                && (p.filter matches RuleFilter::Sql { expression }
                                && expression@ == filter) && text_view(p.action) == action_of(
                                old(self).sql_action@,
                            ) && final(self).error == old(self).error
                        },
                        CreateKind::Queue => r matches Some(EntityDescription::Queue(q))
                            && q.name@ == name && q.lock_duration == (Duration {
                            secs: old(self).lock_duration_secs as u64,
                            nanos: 0,
                        }) && q.requires_session == old(self).requires_session
                            && q.requires_duplicate_detection == old(
                            self,
                        ).requires_duplicate_detection && q.enable_partitioning == old(
                            self,
                        ).enable_partitioning && q.dead_lettering_on_message_expiration == old(
                            self,
                        ).dead_lettering_on_message_expiration && q.max_delivery_count == old(
                            self,
                        ).max_delivery_count && q.wf() && (QueueProperties {
                            name: q.name,
                            lock_duration: Duration { secs: 60, nanos: 0 },
                            requires_session: false,
                            requires_duplicate_detection: false,
                            enable_partitioning: false,
                            dead_lettering_on_message_expiration: false,
                            max_delivery_count: 10,
                            ..q
                        }).is_default_but_name() && final(self).error == old(self).error,
                        CreateKind::Topic => r matches Some(EntityDescription::Topic(t))
                            && t.name@ == name && t.requires_duplicate_detection == old(
                            self,
                        ).requires_duplicate_detection && t.enable_partitioning == old(
                            self,
                        ).enable_partitioning && t.support_ordering == old(self).support_ordering
                            && t.wf() && (TopicProperties {
                            name: t.name,
                            requires_duplicate_detection: false,
                            enable_partitioning: false,
                            support_ordering: false,
                            ..t
                        }).is_default_but_name() && final(self).error == old(self).error,
                        CreateKind::Subscription { topic } => r matches Some(
                            EntityDescription::Subscription(s),
                        ) && s.topic@ == topic@ && s.name@ == name && s.lock_duration == (Duration {
                            secs: old(self).lock_duration_secs as u64,
                            nanos: 0,
                        }) && s.requires_session == old(self).requires_session
                            && s.dead_lettering_on_message_expiration == old(
                            self,
                        ).dead_lettering_on_message_expiration && s.max_delivery_count == old(
                            self,
                        ).max_delivery_count && s.wf() && (SubscriptionProperties {
                            topic: s.topic,
                            name: s.name,
                            lock_duration: Duration { secs: 60, nanos: 0 },
                            requires_session: false,
                            dead_lettering_on_message_expiration: false,
                            max_delivery_count: 10,
                            ..s
                        }).is_default_but_names() && final(self).error == old(self).error,
                    },
                }
            }),
    {
        let name = trimmed(self.name.as_str());
        if name.as_str().is_empty() {
            self.error = Some("Enter a name.".to_owned());
            proof {
                reveal_strlit("Enter a name.");
            }
            return None;
        }
        let nc = str_chars(name.as_str());
        let nbytes = name.as_str().as_bytes().len();
        if nbytes > 260 || nc[0] == '/' || nc[nc.len() - 1] == '/' {
            self.error = Some(
                "Entity names must be at most 260 characters and cannot start or end with '/'.".to_owned(),
            );
            return None;
        }
        let lock_duration = Duration::from_secs(self.lock_duration_secs as u64);
        match &self.kind {
            CreateKind::Queue => {
                let mut q = QueueProperties::default();
                q.name = name;
                q.lock_duration = lock_duration;
                q.requires_session = self.requires_session;
                q.requires_duplicate_detection = self.requires_duplicate_detection;
                q.enable_partitioning = self.enable_partitioning;
                q.dead_lettering_on_message_expiration = self.dead_lettering_on_message_expiration;
                q.max_delivery_count = self.max_delivery_count;
                Some(EntityDescription::Queue(q))
            },
            CreateKind::Topic => {
                let mut t = TopicProperties::default();
                t.name = name;
                t.requires_duplicate_detection = self.requires_duplicate_detection;
                t.enable_partitioning = self.enable_partitioning;
                t.support_ordering = self.support_ordering;
                Some(EntityDescription::Topic(t))
            },
            CreateKind::Subscription { topic } => {
                let mut s = SubscriptionProperties::default();
                s.topic = topic.clone();
                s.name = name;
                s.lock_duration = lock_duration;
                s.requires_session = self.requires_session;
                s.dead_lettering_on_message_expiration = self.dead_lettering_on_message_expiration;
                s.max_delivery_count = self.max_delivery_count;
                Some(EntityDescription::Subscription(s))
            },
            CreateKind::Rule { topic, subscription } => {
                let expression = trimmed(self.sql_filter.as_str());
                if expression.as_str().is_empty() {
                    self.error = Some("Enter a SQL filter expression (e.g. 1=1).".to_owned());
                    return None;
                }
                let action = trimmed(self.sql_action.as_str());
                let action = if action.as_str().is_empty() {
                    None
                } else {
                    Some(action)
                };
                Some(
                    EntityDescription::Rule(
                        RuleProperties {
                            topic: topic.clone(),
                            subscription: subscription.clone(),
                            name,
                            filter: RuleFilter::Sql { expression },
                            action,
                        },
                    ),
                )
            },
        }
    }
}

// ---- send dialog ---------------------------------------------------------------------------

/// Form buffer for composing a message (also prefilled for resending).
#[derive(Debug)]
pub struct SendDialog {
    /// Namespace the message goes to.
    pub ns: ProfileId,
    pub target: EntityPath,
    pub body: String,
    /// Original bytes when resending a non-text body as it was.
    pub raw_bytes: Option<Vec<u8>>,
    pub message_id: String,
    pub subject: String,
    pub content_type: String,
    pub correlation_id: String,
    pub session_id: String,
    /// Seconds; empty means the entity's default.
    pub ttl_seconds: String,
    pub properties: Vec<(String, String)>,
    pub repeat: u32,
    /// Minutes from now to schedule delivery; empty or 0 sends at once.
    pub schedule_in_minutes: String,
    pub error: Option<String>,
}

pub open spec fn schedule_error() -> Seq<char> {
    "Schedule must be a positive number of minutes."@
}

pub open spec fn ttl_error() -> Seq<char> {
    "TTL must be a positive number of seconds."@
}

/// The schedule field read: `Ok(None)` to send at once, `Ok(Some(m))` for a
/// positive number of minutes, or the error text.
pub open spec fn spec_schedule(text: Seq<char>) -> Result<Option<i64>, Seq<char>> {
    let t = trim(text);
    if t.len() == 0 || t == "0"@ {
        Ok(None)
    } else {
        match spec_parse_i64(t) {
            Some(m) => if m > 0 {
                Ok(Some(m))
            } else {
                Err(schedule_error())
            },
            None => Err(schedule_error()),
        }
    }
}

/// The time-to-live field read: `Ok(None)` for the entity default, a
/// positive number of seconds, or the error text.
pub open spec fn spec_ttl(text: Seq<char>) -> Result<Option<Duration>, Seq<char>> {
    let t = trim(text);
    if t.len() == 0 {
        Ok(None)
    } else {
        match spec_parse_u64(t) {
            Some(s) => if s > 0 {
                Ok(Some(Duration { secs: s, nanos: 0 }))
            } else {
                Err(ttl_error())
            },
            None => Err(ttl_error()),
        }
    }
}

/// The form prefilled from a message: its body, bytes, texts (empty where
/// the message has none), time to live in whole seconds and properties; no
/// message id, one copy, sent at once.
pub open spec fn prefilled_from(d: SendDialog, m: OutboundView) -> bool {
    &&& d.body@ == m.body
    &&& crate::message::bytes_opt(d.raw_bytes) == m.raw_bytes
    &&& d.message_id@.len() == 0
    &&& d.subject@ == text_or_empty(m.subject)
    &&& d.content_type@ == text_or_empty(m.content_type)
    &&& d.correlation_id@ == text_or_empty(m.correlation_id)
    &&& d.session_id@ == text_or_empty(m.session_id)
    &&& d.ttl_seconds@ == (match m.time_to_live {
        Some(t) => crate::text::decimal(t.secs as nat),
        None => Seq::<char>::empty(),
    })
    &&& props_view(d.properties@) == m.application_properties
    &&& d.repeat == 1
    &&& d.schedule_in_minutes@.len() == 0
    &&& d.error is None
}

pub open spec fn text_or_empty(t: Option<Seq<char>>) -> Seq<char> {
    match t {
        Some(t) => t,
        None => Seq::empty(),
    }
}

/// A text field as an optional value: trimmed, and none when empty.
pub open spec fn non_empty(s: Seq<char>) -> Option<Seq<char>> {
    if trim(s).len() == 0 {
        None
    } else {
        Some(trim(s))
    }
}

/// The properties with a non-blank name, the name trimmed.
pub open spec fn send_props(p: Seq<(Seq<char>, Seq<char>)>) -> Seq<(Seq<char>, Seq<char>)>
    decreases p.len(),
{
    if p.len() == 0 {
        Seq::empty()
    } else if trim(p.last().0).len() == 0 {
        send_props(p.drop_last())
    } else {
        send_props(p.drop_last()).push((trim(p.last().0), p.last().1))
    }
}

/// The message a valid form describes.
pub open spec fn spec_template(d: SendDialog, ttl: Option<Duration>) -> OutboundView {
    OutboundView {
        body: d.body@,
        raw_bytes: crate::message::bytes_opt(d.raw_bytes),
        message_id: non_empty(d.message_id@),
        subject: non_empty(d.subject@),
        content_type: non_empty(d.content_type@),
        correlation_id: non_empty(d.correlation_id@),
        session_id: non_empty(d.session_id@),
        to: None,
        reply_to: None,
        time_to_live: ttl,
        application_properties: send_props(props_view(d.properties@)),
    }
}

fn optional_trimmed(s: &String) -> (r: Option<String>)
    ensures
        text_view(r) == non_empty(s@),
{
    let t = trimmed(s.as_str());
    if t.as_str().is_empty() {
        None
    } else {
        Some(t)
    }
}

fn or_empty(o: &Option<String>) -> (r: String)
    ensures
        r@ == match text_view(*o) {
            Some(t) => t,
            None => Seq::<char>::empty(),
        },
{
    match o {
        Some(s) => s.clone(),
        None => String::new(),
    }
}

impl SendDialog {
    pub fn new(ns: ProfileId, target: EntityPath) -> (r: SendDialog)
        ensures
            r.ns == ns,
            r.target == target,
            r.body@.len() == 0,
            r.raw_bytes is None,
            r.message_id@.len() == 0,
            r.subject@.len() == 0,
            r.content_type@.len() == 0,
            r.correlation_id@.len() == 0,
            r.session_id@.len() == 0,
            r.ttl_seconds@.len() == 0,
            r.properties@.len() == 0,
            r.repeat == 1,
            r.schedule_in_minutes@.len() == 0,
            r.error is None,
    {
        SendDialog {
            ns,
            target,
            body: String::new(),
            raw_bytes: None,
            message_id: String::new(),
            subject: String::new(),
            content_type: String::new(),
            correlation_id: String::new(),
            session_id: String::new(),
            ttl_seconds: String::new(),
            properties: Vec::new(),
            repeat: 1,
            schedule_in_minutes: String::new(),
            error: None,
        }
    }

    /// When set, delivery is scheduled this many minutes from now; an error
    /// text when the field holds something other than a positive number.
    pub fn schedule_minutes(&self) -> (r: Result<Option<i64>, String>)
        ensures
            match r {
                Ok(m) => spec_schedule(self.schedule_in_minutes@) == Ok::<Option<i64>, Seq<char>>(m),
                Err(e) => spec_schedule(self.schedule_in_minutes@) == Err::<Option<i64>, Seq<char>>(
                    e@,
                ),
            },
    {
        let t = trimmed(self.schedule_in_minutes.as_str());
        let tc = str_chars(t.as_str());
        if tc.len() == 0 || crate::text::chars_eq_str(tc.as_slice(), "0") {
            return Ok(None);
        }
        match parse_i64(t.as_str()) {
            Some(m) => if m > 0 {
                Ok(Some(m))
            } else {
                Err("Schedule must be a positive number of minutes.".to_owned())
            },
            None => Err("Schedule must be a positive number of minutes.".to_owned()),
        }
    }

    /// A dialog prefilled from a message, for resending it: its body, raw
    /// bytes, properties, time-to-live in seconds and the text fields (a
    /// fresh message id is left to the service).
    pub fn prefilled(ns: ProfileId, target: EntityPath, from: OutboundMessage) -> (r: SendDialog)
        ensures
            r.ns == ns,
            r.target == target,
            prefilled_from(r, from@),
            r.body@ == from@.body,
            crate::message::bytes_opt(r.raw_bytes) == from@.raw_bytes,
            r.message_id@.len() == 0,
            Some(r.subject@) == (match from@.subject { Some(t) => Some(t), None => Some(Seq::<char>::empty()) }),
            Some(r.content_type@) == (match from@.content_type { Some(t) => Some(t), None => Some(Seq::<char>::empty()) }),
            Some(r.correlation_id@) == (match from@.correlation_id { Some(t) => Some(t), None => Some(Seq::<char>::empty()) }),
            Some(r.session_id@) == (match from@.session_id { Some(t) => Some(t), None => Some(Seq::<char>::empty()) }),
            r.ttl_seconds@ == (match from@.time_to_live { Some(d) => crate::text::decimal(d.secs as nat), None => Seq::<char>::empty() }),
            props_view(r.properties@) == from@.application_properties,
            r.repeat == 1,
            r.schedule_in_minutes@.len() == 0,
            r.error is None,
    {
        let subject = or_empty(&from.subject);
        let content_type = or_empty(&from.content_type);
        let correlation_id = or_empty(&from.correlation_id);
        let session_id = or_empty(&from.session_id);
        let ttl_seconds = match from.time_to_live {
            Some(d) => {
                let mut v: Vec<char> = Vec::new();
                crate::text::push_decimal(&mut v, d.as_secs());
                string_from_chars(v.as_slice())
            },
            None => String::new(),
        };
        SendDialog {
            ns,
            target,
            body: from.body,
            raw_bytes: from.raw_bytes,
            message_id: String::new(),
            subject,
            content_type,
            correlation_id,
            session_id,
            ttl_seconds,
            properties: from.application_properties,
            repeat: 1,
            schedule_in_minutes: String::new(),
            error: None,
        }
    }

    /// Validate the form into `repeat` copies of the message it describes;
    /// on failure set `error` and give `None`.
    pub fn build(&mut self) -> (r: Option<Vec<OutboundMessage>>)
        ensures
            match spec_ttl(old(self).ttl_seconds@) {
                Err(e) => r is None && text_view(final(self).error) == Some(e),
                Ok(ttl) => r matches Some(v) && v@.len() == old(self).repeat && (forall|i: int|
                    0 <= i < v@.len() ==> #[trigger] v@[i]@ == spec_template(*old(self), ttl)),
            },
            spec_ttl(old(self).ttl_seconds@) is Ok ==> *final(self) == *old(self),
            *final(self) == (SendDialog { error: final(self).error, ..*old(self) }),
    {
        let t = trimmed(self.ttl_seconds.as_str());
        let ttl = if t.as_str().is_empty() {
            None
        } else {
            match parse_u64(t.as_str()) {
                Some(secs) => if secs > 0 {
                    Some(Duration::from_secs(secs))
                } else {
                    self.error = Some("TTL must be a positive number of seconds.".to_owned());
                    return None;
                },
                None => {
                    self.error = Some("TTL must be a positive number of seconds.".to_owned());
                    return None;
                },
            }
        };
        let mut props: Vec<(String, String)> = Vec::new();
        let mut i: usize = 0;
        let ghost all = props_view(self.properties@);
        while i < self.properties.len()
            invariant
                i <= self.properties.len(),
                all == props_view(self.properties@),
                props_view(props@) == send_props(all.take(i as int)),
            decreases self.properties.len() - i,
        {
            assert(all.take(i + 1).drop_last() =~= all.take(i as int));
            let (k, v) = &self.properties[i];
            let key = trimmed(k.as_str());
            if !key.as_str().is_empty() {
                let ghost before = props@;
                let ghost kv = (key@, v@);
                props.push((key, v.clone()));
                assert(props_view(props@) =~= props_view(before).push(kv));
            }
            i = i + 1;
        }
        assert(all.take(i as int) =~= all);
        let template = OutboundMessage {
            body: self.body.clone(),
            raw_bytes: match &self.raw_bytes {
                Some(b) => Some(vstd::slice::slice_to_vec(b.as_slice())),
                None => None,
            },
            message_id: optional_trimmed(&self.message_id),
            subject: optional_trimmed(&self.subject),
            content_type: optional_trimmed(&self.content_type),
            correlation_id: optional_trimmed(&self.correlation_id),
            session_id: optional_trimmed(&self.session_id),
            to: None,
            reply_to: None,
            time_to_live: ttl,
            application_properties: props,
        };
        let ghost tv = spec_template(*self, ttl);
        assert(template@ == tv);
        let mut out: Vec<OutboundMessage> = Vec::new();
        let mut k: u32 = 0;
        while k < self.repeat
            invariant
                k <= self.repeat,
                out@.len() == k,
                template@ == tv,
                forall|j: int| 0 <= j < out@.len() ==> #[trigger] out@[j]@ == tv,
            decreases self.repeat - k,
        {
            out.push(template.duplicate());
            k = k + 1;
        }
        Some(out)
    }
}

/// What a confirmed destructive dialog will do.
#[derive(Clone, Debug)]
pub enum PendingConfirm {
    Delete(EntityPath),
    Purge(MessageSource),
}

/// The name that must be typed back to confirm an action.
pub open spec fn confirm_name(action: PendingConfirm) -> Seq<char> {
    match action {
        PendingConfirm::Delete(path) => path_name(path),
        PendingConfirm::Purge(source) => path_name(source.entity),
    }
}

/// A typed-name confirmation guard, shared by delete and purge.
#[derive(Debug)]
pub struct ConfirmDialog {
    pub action: PendingConfirm,
    /// The entity name that must be typed back to arm the button.
    pub name: String,
    pub typed: String,
    /// When the configuration disables the typed-name guard, a plain button
    /// suffices.
    pub require_typed_name: bool,
}

/// Whether the confirm button is enabled: always without the guard, else
/// when the typed text, trimmed, equals the name up to ASCII case.
pub open spec fn spec_armed(require_typed_name: bool, typed: Seq<char>, name: Seq<char>) -> bool {
    !require_typed_name || lower(trim(typed)) == lower(name)
}

impl ConfirmDialog {
    pub fn new(action: PendingConfirm, require_typed_name: bool) -> (r: ConfirmDialog)
        ensures
            r.action == action,
            r.name@ == confirm_name(action),
            r.typed@.len() == 0,
            r.require_typed_name == require_typed_name,
    {
        let name = match &action {
            PendingConfirm::Delete(path) => String::from_str(path.name()),
            PendingConfirm::Purge(source) => String::from_str(source.entity.name()),
        };
        ConfirmDialog { action, name, typed: String::new(), require_typed_name }
    }

    /// The label of the confirm button.
    pub fn confirm_label(&self) -> (r: &'static str)
        ensures
            r@ == (if self.action is Delete {
                "Delete"@
            } else {
                "Purge"@
            }),
    {
        match &self.action {
            PendingConfirm::Delete(_) => "Delete",
            PendingConfirm::Purge(_) => "Purge",
        }
    }

    pub fn is_armed(&self) -> (r: bool)
        ensures
            r == spec_armed(self.require_typed_name, self.typed@, self.name@),
    {
        if !self.require_typed_name {
            return true;
        }
        let typed = str_chars(self.typed.as_str());
        let (lo, hi) = trim_bounds(typed.as_slice(), 0, typed.len());
        proof {
            assert(typed@.subrange(0, typed@.len() as int) =~= typed@);
        }
        let window = slice_to_vec(typed.as_slice(), lo, hi);
        let a = to_lower(window.as_slice());
        let name = str_chars(self.name.as_str());
        let b = to_lower(name.as_slice());
        chars_eq(a.as_slice(), b.as_slice())
    }
}

/// The typed-name guard accepts the name typed back with any whitespace
/// around it and in any ASCII case; without the guard the button is always
/// armed.
pub proof fn law_typed_name_arms(left: Seq<char>, typed: Seq<char>, right: Seq<char>, name: Seq<char>)
    requires
        forall|i: int| 0 <= i < left.len() ==> is_ws(#[trigger] left[i]),
        forall|i: int| 0 <= i < right.len() ==> is_ws(#[trigger] right[i]),
        typed.len() > 0 ==> !is_ws(typed[0]) && !is_ws(typed.last()),
        lower(typed) == lower(name),
    ensures
        spec_armed(true, left + typed + right, name),
        forall|t: Seq<char>| spec_armed(false, t, name),
{
    let s = left + typed + right;
    let a = left.len() as int;
    let b = a + typed.len();
    assert forall|i: int| 0 <= i < a implies is_ws(#[trigger] s[i]) by {
        assert(s[i] == left[i]);
    }
    assert forall|i: int| b <= i < s.len() implies is_ws(#[trigger] s[i]) by {
        assert(s[i] == right[i - b]);
    }
    if a < b {
        assert(s[a] == typed[0]);
        assert(s[b - 1] == typed.last());
    }
    lemma_trim_window(s, a, b);
    assert(s.subrange(a, b) =~= typed);
}

/// What the user chose in the confirmation dialog.
#[derive(Clone, Copy, Debug, PartialEq, Eq, Structural)]
pub enum ConfirmAction {
    Confirm,
    Close,
}

/// What the user chose in the create dialog.
#[derive(Clone, Copy, Debug, PartialEq, Eq, Structural)]
pub enum CreateAction {
    Create,
    Close,
}

/// What the user chose in the send dialog.
#[derive(Clone, Copy, Debug, PartialEq, Eq, Structural)]
pub enum SendAction {
    Send,
    Close,
}

// ---- connect dialog ----------------------------------------------------------------

/// The form for adding, editing and connecting a namespace profile.
#[derive(Debug)]
pub struct ConnectDialog {
    /// Currently selected saved profile, if any.
    pub selected: Option<ProfileId>,
    pub name: String,
    /// Pasted connection string; empty means "use the stored secret".
    pub connection_string: String,
    pub show_secret: bool,
    /// Connect this profile automatically when the application starts.
    pub auto_connect: bool,
    pub error: Option<String>,
}

impl Default for ConnectDialog {
    fn default() -> (r: ConnectDialog)
        ensures
            r.selected is None,
            r.name@.len() == 0,
            r.connection_string@.len() == 0,
            !r.show_secret,
            !r.auto_connect,
            r.error is None,
    {
        ConnectDialog {
            selected: None,
            name: String::new(),
            connection_string: String::new(),
            show_secret: false,
            auto_connect: false,
            error: None,
        }
    }
}

impl ConnectDialog {
    /// The form opened on a saved profile.
    pub fn for_profile(id: ProfileId, name: String, auto_connect: bool) -> (r: ConnectDialog)
        ensures
            r.selected == Some(id),
            r.name@ == name@,
            r.connection_string@.len() == 0,
            !r.show_secret,
            r.auto_connect == auto_connect,
            r.error is None,
    {
        ConnectDialog {
            selected: Some(id),
            name,
            connection_string: String::new(),
            show_secret: false,
            auto_connect,
            error: None,
        }
    }
}

/// What the user asked the connect dialog to do.
#[derive(Clone, Copy, Debug, PartialEq, Eq)]
pub enum DialogAction {
    Save,
    Connect,
    Delete(ProfileId),
    Close,
}

/// A saved profile's display name: the name typed in the form, trimmed, or
/// the namespace's own name when none was typed.
pub open spec fn profile_name(typed_name: Seq<char>, conn: ConnectionView) -> Seq<char> {
    if trim(typed_name).len() == 0 {
        conn.namespace
    } else {
        trim(typed_name)
    }
}

/// The connection string pasted into the form, trimmed.
pub open spec fn pasted(dialog: ConnectDialog) -> Seq<char> {
    trim(dialog.connection_string@)
}

/// The saved profile the form edits, if it is one the configuration holds.
pub open spec fn saved_over(dialog: ConnectDialog, config: ConfigView) -> Option<ProfileView> {
    match dialog.selected {
        Some(id) => lookup(config.profiles, id.value),
        None => None,
    }
}

/// The dialog is unchanged but for its error message.
pub open spec fn only_error_changed(before: ConnectDialog, after: ConnectDialog) -> bool {
    &&& after.selected == before.selected
    &&& after.name@ == before.name@
    &&& after.connection_string@ == before.connection_string@
    &&& after.show_secret == before.show_secret
    &&& after.auto_connect == before.auto_connect
}

/// Check the form, store a newly pasted connection string, and save the
/// profile into `config`. The secret is the pasted connection string, or,
/// when none was pasted, the one stored for the selected profile. On
/// failure the form shows why and `config` is untouched.
pub fn save_profile(
    dialog: &mut ConnectDialog,
    config: &mut AppConfig,
    secrets: &dyn SecretStore,
) -> (r: Option<(NamespaceProfile, SecretString)>)
    ensures
        r is None ==> {
            &&& final(config)@ == old(config)@
            &&& final(dialog).error is Some
            &&& only_error_changed(*old(dialog), *final(dialog))
        },
        pasted(*old(dialog)).len() == 0 && old(dialog).selected is None ==> {
            &&& r is None
            &&& final(dialog).error matches Some(m) && m@ == "Paste a connection string."@
        },
        pasted(*old(dialog)).len() > 0 && spec_parse_connection(pasted(*old(dialog))) is Err ==> {
            &&& r is None
            &&& final(dialog).error matches Some(m) && m@ == error_message(
                spec_parse_connection(pasted(*old(dialog)))->Err_0,
            )
        },
        pasted(*old(dialog)).len() > 0 && spec_parse_connection(pasted(*old(dialog))) is Ok ==> {
            ||| r is Some
            ||| final(dialog).error matches Some(m) && "Could not store the secret: "@.is_prefix_of(m@)
        },
        r matches Some((p, s)) ==> {
            &&& pasted(*old(dialog)).len() > 0 ==> s@ == pasted(*old(dialog))
            &&& spec_parse_connection(s@) is Ok
            &&& p@.name == profile_name(old(dialog).name@, spec_parse_connection(s@)->Ok_0)
            &&& p@.endpoint == Some(spec_parse_connection(s@)->Ok_0.endpoint)
            &&& p@.transport == spec_parse_connection(s@)->Ok_0.transport
            &&& saved_over(*old(dialog), old(config)@) matches Some(q) ==> p@.id == q.id && p@.auth == q.auth
            &&& final(config)@ == (ConfigView { profiles: upserted(old(config)@.profiles, p@), ..old(config)@ })
            &&& final(dialog).selected == Some(p.id)
            &&& final(dialog).name@ == p@.name
            &&& final(dialog).connection_string@.len() == 0
            &&& final(dialog).error is None
            &&& final(dialog).show_secret == old(dialog).show_secret
            &&& final(dialog).auto_connect == old(dialog).auto_connect
        },
{
    let typed = trimmed(dialog.connection_string.as_str());
    let newly_typed = !typed.as_str().is_empty();
    let secret = if !newly_typed {
        match dialog.selected {
            None => {
                dialog.error = Some("Paste a connection string.".to_owned());
                return None;
            },
            Some(id) => {
                let key = SecretRef::new(id, SecretKind::ConnectionString);
                match secrets.get(&key) {
                    Ok(Some(s)) => s,
                    Ok(None) => {
                        let mut m: Vec<char> = Vec::new();
                        push_str(&mut m, "No stored connection string (");
                        push_str(&mut m, secrets.backend_name());
                        push_str(&mut m, "); paste one.");
                        dialog.error = Some(string_from_chars(m.as_slice()));
                        return None;
                    },
                    Err(e) => {
                        dialog.error = Some(e.message());
                        return None;
                    },
                }
            },
        }
    } else {
        SecretString::new(typed)
    };
    let conn = match NamespaceConnection::parse(secret.expose()) {
        Ok(c) => c,
        Err(e) => {
            dialog.error = Some(e.message());
            return None;
        },
    };
    let mut profile = match dialog.selected {
        Some(id) => match config.profile(id) {
            Some(p) => p.duplicate(),
            None => NamespaceProfile::new_connection_string(String::new()),
        },
        None => NamespaceProfile::new_connection_string(String::new()),
    };
    let name = trimmed(dialog.name.as_str());
    if name.as_str().is_empty() {
        profile.name = conn.namespace().to_owned();
    } else {
        profile.name = name;
    }
    profile.endpoint = Some(conn.endpoint().duplicate());
    profile.transport = conn.transport();
    if newly_typed {
        let key = SecretRef::new(profile.id, SecretKind::ConnectionString);
        match secrets.set(&key, &secret) {
            Ok(()) => {},
            Err(e) => {
                let mut m: Vec<char> = Vec::new();
                push_str(&mut m, "Could not store the secret: ");
                let text = e.message();
                push_str(&mut m, text.as_str());
                dialog.error = Some(string_from_chars(m.as_slice()));
                proof {
                    assert("Could not store the secret: "@.is_prefix_of(m@));
                }
                return None;
            },
        }
    }
    dialog.selected = Some(profile.id);
    dialog.name = profile.name.clone();
    dialog.connection_string = String::new();
    dialog.error = None;
    config.upsert_profile(profile.duplicate());
    Some((profile, secret))
}

// ---- resending ---------------------------------------------------------------------

/// A text with nothing to trim.
pub open spec fn is_trimmed(s: Seq<char>) -> bool {
    trim(s) == s
}

pub open spec fn carried_text(t: Option<Seq<char>>) -> bool {
    t matches Some(x) ==> x.len() > 0 && is_trimmed(x)
}

/// A message the send form carries unchanged: no message id and no
/// addressing (the form has neither), texts only where non-blank and
/// trimmed, a time to live of whole seconds, property names trimmed and
/// non-blank.
pub open spec fn resendable(m: OutboundView) -> bool {
    &&& m.message_id is None
    &&& m.to is None
    &&& m.reply_to is None
    &&& carried_text(m.subject)
    &&& carried_text(m.content_type)
    &&& carried_text(m.correlation_id)
    &&& carried_text(m.session_id)
    &&& m.time_to_live matches Some(t) ==> t.secs > 0 && t.nanos == 0
    &&& forall|i: int| 0 <= i < m.application_properties.len()
        ==> #[trigger] m.application_properties[i].0.len() > 0 && is_trimmed(m.application_properties[i].0)
}

proof fn lemma_trim_empty()
    ensures
        trim(Seq::<char>::empty()) == Seq::<char>::empty(),
{
    assert(trim_start(Seq::<char>::empty()) == Seq::<char>::empty());
    assert(trim_end(Seq::<char>::empty()) == Seq::<char>::empty());
}

proof fn lemma_carried(t: Option<Seq<char>>)
    requires
        carried_text(t),
    ensures
        non_empty(text_or_empty(t)) == t,
{
    lemma_trim_empty();
}

proof fn lemma_send_props_keep(p: Seq<(Seq<char>, Seq<char>)>)
    requires
        forall|i: int| 0 <= i < p.len() ==> #[trigger] p[i].0.len() > 0 && is_trimmed(p[i].0),
    ensures
        send_props(p) == p,
    decreases p.len(),
{
    if p.len() > 0 {
        let q = p.drop_last();
        assert forall|i: int| 0 <= i < q.len() implies #[trigger] q[i].0.len() > 0 && is_trimmed(q[i].0) by {
            assert(q[i] == p[i]);
        }
        lemma_send_props_keep(q);
        assert(p.last() == p[p.len() - 1]);
        assert(q.push(p.last()) =~= p);
    }
}

proof fn lemma_decimal_ttl(n: u64)
    requires
        n > 0,
    ensures
        spec_ttl(crate::text::decimal(n as nat)) == Ok::<Option<Duration>, Seq<char>>(Some(Duration { secs: n, nanos: 0 })),
{
    let t = crate::text::decimal(n as nat);
    crate::text::lemma_decimal(n as nat);
    assert(crate::text::is_digit(t[0]));
    assert(crate::text::is_digit(t[t.len() - 1]));
    assert(trim_start(t) == t);
    assert(t.last() == t[t.len() - 1]);
    assert(trim_end(t) == t);
    assert(trim(t) == t);
    assert(t[0] != '+');
    assert(crate::duration::int_token(t) == Some(n as nat));
}

/// Resending a message through the send form gives the message back: the
/// form prefilled from a message the form can carry builds copies equal to
/// it.
pub proof fn law_resend_keeps_the_message(d: SendDialog, m: OutboundView)
    requires
        prefilled_from(d, m),
        resendable(m),
    ensures
        spec_ttl(d.ttl_seconds@) == Ok::<Option<Duration>, Seq<char>>(m.time_to_live),
        spec_template(d, m.time_to_live) == m,
{
    lemma_trim_empty();
    match m.time_to_live {
        Some(t) => {
            lemma_decimal_ttl(t.secs);
        },
        None => {},
    }
    lemma_carried(m.subject);
    lemma_carried(m.content_type);
    lemma_carried(m.correlation_id);
    lemma_carried(m.session_id);
    lemma_send_props_keep(m.application_properties);
}

} // verus!
