//! Entity models for the management API: queue, topic, subscription and rule
//! descriptions, entity status and per-state message counts.

use vstd::prelude::*;
use crate::timestamp::Timestamp;
use crate::duration::{Duration, spec_unlimited, unlimited};
use crate::text::{str_chars, chars_eq_str};

verus! {

broadcast use vstd::string::group_string_axioms;

/// Entity status, matching the service's `EntityStatus` values.
#[derive(Clone, Copy, Debug, PartialEq, Eq, Structural)]
pub enum EntityStatus {
    Active,
    Disabled,
    SendDisabled,
    ReceiveDisabled,
}

pub open spec fn status_text(s: EntityStatus) -> Seq<char> {
    match s {
        EntityStatus::Active => "Active"@,
        EntityStatus::Disabled => "Disabled"@,
        EntityStatus::SendDisabled => "SendDisabled"@,
        EntityStatus::ReceiveDisabled => "ReceiveDisabled"@,
    }
}

/// Unknown text reads as `Active`, the service default.
pub open spec fn status_of_text(t: Seq<char>) -> EntityStatus {
    if t == "Disabled"@ {
        EntityStatus::Disabled
    } else if t == "SendDisabled"@ {
        EntityStatus::SendDisabled
    } else if t == "ReceiveDisabled"@ {
        EntityStatus::ReceiveDisabled
    } else {
        EntityStatus::Active
    }
}

impl EntityStatus {
    /// Every status, in the order the UI offers them.
    pub fn all() -> (r: [EntityStatus; 4])
        ensures
            r@ == seq![
                EntityStatus::Active,
                EntityStatus::Disabled,
                EntityStatus::SendDisabled,
                EntityStatus::ReceiveDisabled,
            ],
    {
        [
            EntityStatus::Active,
            EntityStatus::Disabled,
            EntityStatus::SendDisabled,
            EntityStatus::ReceiveDisabled,
        ]
    }

    pub fn default() -> (r: EntityStatus)
        ensures
            r == EntityStatus::Active,
    {
        EntityStatus::Active
    }

    pub fn as_str(self) -> (r: &'static str)
        ensures
            r@ == status_text(self),
    {
        match self {
            EntityStatus::Active => "Active",
            EntityStatus::Disabled => "Disabled",
            EntityStatus::SendDisabled => "SendDisabled",
            EntityStatus::ReceiveDisabled => "ReceiveDisabled",
        }
    }

    pub fn parse(s: &str) -> (r: EntityStatus)
        ensures
            r == status_of_text(s@),
    {
        let cs = str_chars(s);
        if chars_eq_str(cs.as_slice(), "Disabled") {
            EntityStatus::Disabled
        } else if chars_eq_str(cs.as_slice(), "SendDisabled") {
            EntityStatus::SendDisabled
        } else if chars_eq_str(cs.as_slice(), "ReceiveDisabled") {
            EntityStatus::ReceiveDisabled
        } else {
            EntityStatus::Active
        }
    }
}

/// Reading back the text of a status gives the status.
pub proof fn law_status_text_round_trip(s: EntityStatus)
    ensures
        status_of_text(status_text(s)) == s,
{
    reveal_strlit("Active");
    reveal_strlit("Disabled");
    reveal_strlit("SendDisabled");
    reveal_strlit("ReceiveDisabled");
    assert("Active"@.len() == 6);
    assert("Disabled"@.len() == 8);
    assert("SendDisabled"@.len() == 12);
    assert("ReceiveDisabled"@.len() == 15);
}

/// Per-state message counts (`<CountDetails>`).
#[derive(Clone, Copy, Debug, PartialEq, Eq, Structural)]
pub struct MessageCountDetails {
    pub active: i64,
    pub dead_letter: i64,
    pub scheduled: i64,
    pub transfer: i64,
    pub transfer_dead_letter: i64,
}

impl MessageCountDetails {
    pub open spec fn spec_total(&self) -> int {
        self.active + self.dead_letter + self.scheduled + self.transfer + self.transfer_dead_letter
    }

    pub fn zero() -> (r: MessageCountDetails)
        ensures
            r.active == 0 && r.dead_letter == 0 && r.scheduled == 0 && r.transfer == 0
                && r.transfer_dead_letter == 0,
    {
        MessageCountDetails {
            active: 0,
            dead_letter: 0,
            scheduled: 0,
            transfer: 0,
            transfer_dead_letter: 0,
        }
    }

    /// Sum over all states.
    pub fn total(&self) -> (r: i64)
        requires
            i64::MIN <= self.active + self.dead_letter <= i64::MAX,
            i64::MIN <= self.active + self.dead_letter + self.scheduled <= i64::MAX,
            i64::MIN <= self.active + self.dead_letter + self.scheduled + self.transfer <= i64::MAX,
            i64::MIN <= self.spec_total() <= i64::MAX,
        ensures
            r == self.spec_total(),
    {
        self.active + self.dead_letter + self.scheduled + self.transfer + self.transfer_dead_letter
    }
}

impl Default for MessageCountDetails {
    fn default() -> (r: MessageCountDetails)
        ensures
            r == MessageCountDetails::zero_spec(),
    {
        MessageCountDetails::zero()
    }
}

impl MessageCountDetails {
    pub open spec fn zero_spec() -> MessageCountDetails {
        MessageCountDetails {
            active: 0,
            dead_letter: 0,
            scheduled: 0,
            transfer: 0,
            transfer_dead_letter: 0,
        }
    }
}

/// Server-maintained fields common to queues and subscriptions.
#[derive(Clone, Debug, PartialEq)]
pub struct EntityRuntimeInfo {
    pub message_count: i64,
    pub size_in_bytes: i64,
    pub count_details: MessageCountDetails,
    pub created_at: Option<Timestamp>,
    pub updated_at: Option<Timestamp>,
    pub accessed_at: Option<Timestamp>,
}

// ---- queue ------------------------------------------------------------------------

#[derive(Clone, Debug, PartialEq)]
pub struct QueueProperties {
    pub name: String,
    pub lock_duration: Duration,
    pub max_size_in_megabytes: i64,
    pub requires_duplicate_detection: bool,
    pub requires_session: bool,
    pub default_message_time_to_live: Duration,
    pub dead_lettering_on_message_expiration: bool,
    pub duplicate_detection_history_time_window: Duration,
    pub max_delivery_count: i32,
    pub enable_batched_operations: bool,
    pub status: EntityStatus,
    pub forward_to: Option<String>,
    pub user_metadata: Option<String>,
    pub auto_delete_on_idle: Duration,
    pub enable_partitioning: bool,
    pub enable_express: bool,
    pub forward_dead_lettered_messages_to: Option<String>,
    pub max_message_size_in_kilobytes: Option<i64>,
}

impl QueueProperties {
    /// Durations are well formed.
    pub open spec fn wf(&self) -> bool {
        &&& self.lock_duration.wf()
        &&& self.default_message_time_to_live.wf()
        &&& self.duplicate_detection_history_time_window.wf()
        &&& self.auto_delete_on_idle.wf()
    }

    /// The service defaults for a new queue.
    pub open spec fn is_default(&self) -> bool {
        &&& self.name@ == Seq::<char>::empty()
        &&& self.is_default_but_name()
    }

    /// Every setting but the name is the service default.
    pub open spec fn is_default_but_name(&self) -> bool {
        &&& self.lock_duration == Duration { secs: 60, nanos: 0 }
        &&& self.max_size_in_megabytes == 1024
        &&& !self.requires_duplicate_detection
        &&& !self.requires_session
        &&& self.default_message_time_to_live == spec_unlimited()
        &&& !self.dead_lettering_on_message_expiration
        &&& self.duplicate_detection_history_time_window == Duration { secs: 600, nanos: 0 }
        &&& self.max_delivery_count == 10
        &&& self.enable_batched_operations
        &&& self.status == EntityStatus::Active
        &&& self.forward_to is None
        &&& self.user_metadata is None
        &&& self.auto_delete_on_idle == spec_unlimited()
        &&& !self.enable_partitioning
        &&& !self.enable_express
        &&& self.forward_dead_lettered_messages_to is None
        &&& self.max_message_size_in_kilobytes is None
    }
}

impl Default for QueueProperties {
    fn default() -> (r: Self)
        ensures
            r.is_default(),
            r.wf(),
    {
        QueueProperties {
            name: String::new(),
            lock_duration: Duration::from_mins(1),
            max_size_in_megabytes: 1024,
            requires_duplicate_detection: false,
            requires_session: false,
            default_message_time_to_live: unlimited(),
            dead_lettering_on_message_expiration: false,
            duplicate_detection_history_time_window: Duration::from_mins(10),
            max_delivery_count: 10,
            enable_batched_operations: true,
            status: EntityStatus::Active,
            forward_to: None,
            user_metadata: None,
            auto_delete_on_idle: unlimited(),
            enable_partitioning: false,
            enable_express: false,
            forward_dead_lettered_messages_to: None,
            max_message_size_in_kilobytes: None,
        }
    }
}

/// A queue's description and counters.
#[derive(Clone, Debug, PartialEq)]
pub struct QueueInfo {
    pub properties: QueueProperties,
    pub runtime: EntityRuntimeInfo,
}

// ---- topic ------------------------------------------------------------------------

#[derive(Clone, Debug, PartialEq)]
pub struct TopicProperties {
    pub name: String,
    pub default_message_time_to_live: Duration,
    pub max_size_in_megabytes: i64,
    pub requires_duplicate_detection: bool,
    pub duplicate_detection_history_time_window: Duration,
    pub enable_batched_operations: bool,
    pub status: EntityStatus,
    pub support_ordering: bool,
    pub auto_delete_on_idle: Duration,
    pub enable_partitioning: bool,
    pub enable_express: bool,
    pub user_metadata: Option<String>,
    pub max_message_size_in_kilobytes: Option<i64>,
}

impl TopicProperties {
    pub open spec fn wf(&self) -> bool {
        &&& self.default_message_time_to_live.wf()
        &&& self.duplicate_detection_history_time_window.wf()
        &&& self.auto_delete_on_idle.wf()
    }

    pub open spec fn is_default(&self) -> bool {
        &&& self.name@ == Seq::<char>::empty()
        &&& self.is_default_but_name()
    }

    /// Every setting but the name is the service default.
    pub open spec fn is_default_but_name(&self) -> bool {
        &&& self.default_message_time_to_live == spec_unlimited()
        &&& self.max_size_in_megabytes == 1024
        &&& !self.requires_duplicate_detection
        &&& self.duplicate_detection_history_time_window == Duration { secs: 600, nanos: 0 }
        &&& self.enable_batched_operations
        &&& self.status == EntityStatus::Active
        &&& !self.support_ordering
        &&& self.auto_delete_on_idle == spec_unlimited()
        &&& !self.enable_partitioning
        &&& !self.enable_express
        &&& self.user_metadata is None
        &&& self.max_message_size_in_kilobytes is None
    }
}

impl Default for TopicProperties {
    fn default() -> (r: Self)
        ensures
            r.is_default(),
            r.wf(),
    {
        TopicProperties {
            name: String::new(),
            default_message_time_to_live: unlimited(),
            max_size_in_megabytes: 1024,
            requires_duplicate_detection: false,
            duplicate_detection_history_time_window: Duration::from_mins(10),
            enable_batched_operations: true,
            status: EntityStatus::Active,
            support_ordering: false,
            auto_delete_on_idle: unlimited(),
            enable_partitioning: false,
            enable_express: false,
            user_metadata: None,
            max_message_size_in_kilobytes: None,
        }
    }
}

/// A topic's description and counters.
#[derive(Clone, Debug, PartialEq)]
pub struct TopicInfo {
    pub properties: TopicProperties,
    pub subscription_count: i64,
    pub size_in_bytes: i64,
    pub scheduled_message_count: i64,
    pub created_at: Option<Timestamp>,
    pub updated_at: Option<Timestamp>,
    pub accessed_at: Option<Timestamp>,
}

// ---- subscription -----------------------------------------------------------------

#[derive(Clone, Debug, PartialEq)]
pub struct SubscriptionProperties {
    /// Parent topic path.
    pub topic: String,
    pub name: String,
    pub lock_duration: Duration,
    pub requires_session: bool,
    pub default_message_time_to_live: Duration,
    pub dead_lettering_on_message_expiration: bool,
    pub dead_lettering_on_filter_evaluation_exceptions: bool,
    pub max_delivery_count: i32,
    pub enable_batched_operations: bool,
    pub status: EntityStatus,
    pub forward_to: Option<String>,
    pub user_metadata: Option<String>,
    pub auto_delete_on_idle: Duration,
    pub forward_dead_lettered_messages_to: Option<String>,
}

impl SubscriptionProperties {
    pub open spec fn wf(&self) -> bool {
        &&& self.lock_duration.wf()
        &&& self.default_message_time_to_live.wf()
        &&& self.auto_delete_on_idle.wf()
    }

    pub open spec fn is_default(&self) -> bool {
        &&& self.topic@ == Seq::<char>::empty()
        &&& self.name@ == Seq::<char>::empty()
        &&& self.is_default_but_names()
    }

    /// Every setting but the topic and name is the service default.
    pub open spec fn is_default_but_names(&self) -> bool {
        &&& self.lock_duration == Duration { secs: 60, nanos: 0 }
        &&& !self.requires_session
        &&& self.default_message_time_to_live == spec_unlimited()
        &&& !self.dead_lettering_on_message_expiration
        &&& self.dead_lettering_on_filter_evaluation_exceptions
        &&& self.max_delivery_count == 10
        &&& self.enable_batched_operations
        &&& self.status == EntityStatus::Active
        &&& self.forward_to is None
        &&& self.user_metadata is None
        &&& self.auto_delete_on_idle == spec_unlimited()
        &&& self.forward_dead_lettered_messages_to is None
    }
}

impl Default for SubscriptionProperties {
    fn default() -> (r: Self)
        ensures
            r.is_default(),
            r.wf(),
    {
        SubscriptionProperties {
            topic: String::new(),
            name: String::new(),
            lock_duration: Duration::from_mins(1),
            requires_session: false,
            default_message_time_to_live: unlimited(),
            dead_lettering_on_message_expiration: false,
            dead_lettering_on_filter_evaluation_exceptions: true,
            max_delivery_count: 10,
            enable_batched_operations: true,
            status: EntityStatus::Active,
            forward_to: None,
            user_metadata: None,
            auto_delete_on_idle: unlimited(),
            forward_dead_lettered_messages_to: None,
        }
    }
}

/// A subscription's description and counters.
#[derive(Clone, Debug, PartialEq)]
pub struct SubscriptionInfo {
    pub properties: SubscriptionProperties,
    pub runtime: EntityRuntimeInfo,
}

// ---- rule -------------------------------------------------------------------------

#[derive(Clone, Debug, PartialEq, Eq)]
pub enum RuleFilter {
    Sql {
        expression: String,
    },
    Correlation {
        correlation_id: Option<String>,
        message_id: Option<String>,
        to: Option<String>,
        reply_to: Option<String>,
        subject: Option<String>,
        session_id: Option<String>,
        reply_to_session_id: Option<String>,
        content_type: Option<String>,
        properties: Vec<(String, String)>,
    },
    True,
    False,
}

pub open spec fn filter_summary(f: RuleFilter) -> Seq<char> {
    match f {
        RuleFilter::Sql { expression } => expression@,
        RuleFilter::Correlation { .. } => "correlation filter"@,
        RuleFilter::True => "1=1 (true)"@,
        RuleFilter::False => "1=0 (false)"@,
    }
}

impl RuleFilter {
    /// One-line description for lists.
    pub fn summary(&self) -> (r: String)
        ensures
            r@ == filter_summary(*self),
    {
        match self {
            RuleFilter::Sql { expression } => expression.clone(),
            RuleFilter::Correlation { .. } => "correlation filter".to_owned(),
            RuleFilter::True => "1=1 (true)".to_owned(),
            RuleFilter::False => "1=0 (false)".to_owned(),
        }
    }
}

#[derive(Clone, Debug, PartialEq, Eq)]
pub struct RuleProperties {
    pub topic: String,
    pub subscription: String,
    pub name: String,
    pub filter: RuleFilter,
    /// SQL rule action expression, if any.
    pub action: Option<String>,
}

/// A rule's description and creation time.
#[derive(Clone, Debug, PartialEq)]
pub struct RuleInfo {
    pub properties: RuleProperties,
    pub created_at: Option<Timestamp>,
}

/// What `GET /$namespaceinfo` reports.
#[derive(Clone, Debug, PartialEq)]
pub struct NamespaceInfo {
    pub name: String,
    pub alias: Option<String>,
    /// `Messaging`, `EventHub`, `NotificationHub`, `Relay`, or `Mixed`.
    pub namespace_type: Option<String>,
    /// `Basic`, `Standard`, or `Premium`.
    pub messaging_sku: Option<String>,
    pub messaging_units: Option<u32>,
    pub created_time: Option<Timestamp>,
    pub modified_time: Option<Timestamp>,
}

} // verus!
