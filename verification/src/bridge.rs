//! The vocabulary shared between the user interface and the backend:
//! request ids, user-presentable errors, entity paths and descriptions.

use vstd::prelude::*;
use crate::model::{
    QueueInfo, QueueProperties, RuleInfo, RuleProperties, SubscriptionInfo, SubscriptionProperties,
    TopicInfo, TopicProperties,
};

verus! {

/// Correlates a one-shot request with its response event.
#[derive(Clone, Copy, Debug, PartialEq, Eq, Hash, Structural)]
pub struct RequestId(pub u64);

/// A user-presentable error from a backend operation.
#[derive(Clone, Debug)]
pub struct BackendError {
    pub message: String,
    /// Raw server or library detail for a "show details" expander.
    pub detail: Option<String>,
}

impl BackendError {
    pub fn new(message: String) -> (r: BackendError)
        ensures
            r.message@ == message@,
            r.detail is None,
    {
        BackendError { message, detail: None }
    }

    pub fn with_detail(message: String, detail: String) -> (r: BackendError)
        ensures
            r.message@ == message@,
            r.detail matches Some(d) && d@ == detail@,
    {
        BackendError { message, detail: Some(detail) }
    }
}

/// Where an entity lives in a namespace.
#[derive(Clone, Debug, PartialEq, Eq)]
pub enum EntityPath {
    Queue(String),
    Topic(String),
    Subscription { topic: String, name: String },
    Rule { topic: String, subscription: String, name: String },
}

/// The entity's own name: the last segment of its path.
pub open spec fn path_name(p: EntityPath) -> Seq<char> {
    match p {
        EntityPath::Queue(n) => n@,
        EntityPath::Topic(n) => n@,
        EntityPath::Subscription { name, .. } => name@,
        EntityPath::Rule { name, .. } => name@,
    }
}

impl EntityPath {
    pub fn name(&self) -> (r: &str)
        ensures
            r@ == path_name(*self),
    {
        match self {
            EntityPath::Queue(n) => n.as_str(),
            EntityPath::Topic(n) => n.as_str(),
            EntityPath::Subscription { name, .. } => name.as_str(),
            EntityPath::Rule { name, .. } => name.as_str(),
        }
    }
}

/// Where messages are read from: an entity, or its dead-letter sub-queue.
#[derive(Clone, Debug, PartialEq, Eq)]
pub struct MessageSource {
    pub entity: EntityPath,
    pub dead_letter: bool,
}

/// Where a resend of a message read from `source` goes: a subscription's
/// messages (its dead-letter queue's too) go back to the topic, every other
/// entity's to the entity itself.
pub open spec fn spec_send_target(source: MessageSource) -> EntityPath {
    match source.entity {
        EntityPath::Subscription { topic, .. } => EntityPath::Topic(topic),
        other => other,
    }
}

pub open spec fn path_view(p: EntityPath) -> (int, Seq<char>, Seq<char>, Seq<char>) {
    match p {
        EntityPath::Queue(n) => (0, n@, Seq::empty(), Seq::empty()),
        EntityPath::Topic(n) => (1, n@, Seq::empty(), Seq::empty()),
        EntityPath::Subscription { topic, name } => (2, topic@, name@, Seq::empty()),
        EntityPath::Rule { topic, subscription, name } => (3, topic@, subscription@, name@),
    }
}

impl EntityPath {
    /// A copy with the same contents.
    pub fn duplicate(&self) -> (r: EntityPath)
        ensures
            path_view(r) == path_view(*self),
    {
        match self {
            EntityPath::Queue(n) => EntityPath::Queue(n.clone()),
            EntityPath::Topic(n) => EntityPath::Topic(n.clone()),
            EntityPath::Subscription { topic, name } => EntityPath::Subscription {
                topic: topic.clone(),
                name: name.clone(),
            },
            EntityPath::Rule { topic, subscription, name } => EntityPath::Rule {
                topic: topic.clone(),
                subscription: subscription.clone(),
                name: name.clone(),
            },
        }
    }
}

pub fn send_target(source: &MessageSource) -> (r: EntityPath)
    ensures
        path_view(r) == path_view(spec_send_target(*source)),
{
    match &source.entity {
        EntityPath::Subscription { topic, .. } => EntityPath::Topic(topic.clone()),
        other => other.duplicate(),
    }
}

/// An entity as the service reports it: its description and counters.
#[derive(Clone, Debug)]
pub enum EntityInfo {
    Queue(QueueInfo),
    Topic(TopicInfo),
    Subscription(SubscriptionInfo),
    Rule(RuleInfo),
}

/// How messages are received: locked for settling later, or removed as
/// they are read.
#[derive(Clone, Copy, Debug, PartialEq, Eq, Structural)]
pub enum ReceiveMode {
    PeekLock,
    ReceiveAndDelete,
}

/// What is done with a locked message.
#[derive(Clone, Debug, PartialEq, Eq)]
pub enum Disposition {
    Complete,
    Abandon,
    Defer,
    DeadLetter { reason: Option<String>, description: Option<String> },
}

/// A full entity description, as created or updated.
#[derive(Clone, Debug)]
pub enum EntityDescription {
    Queue(QueueProperties),
    Topic(TopicProperties),
    Subscription(SubscriptionProperties),
    Rule(RuleProperties),
}

/// The description part of an entity's information, as sent back to the
/// service when the entity is updated.
pub fn description_of(info: EntityInfo) -> (r: EntityDescription)
    ensures
        r == match info {
            EntityInfo::Queue(q) => EntityDescription::Queue(q.properties),
            EntityInfo::Topic(t) => EntityDescription::Topic(t.properties),
            EntityInfo::Subscription(s) => EntityDescription::Subscription(s.properties),
            EntityInfo::Rule(r) => EntityDescription::Rule(r.properties),
        },
{
    match info {
        EntityInfo::Queue(q) => EntityDescription::Queue(q.properties),
        EntityInfo::Topic(t) => EntityDescription::Topic(t.properties),
        EntityInfo::Subscription(s) => EntityDescription::Subscription(s.properties),
        EntityInfo::Rule(r) => EntityDescription::Rule(r.properties),
    }
}

} // verus!
