//! A portable snapshot of a namespace's entity descriptions, for export and
//! import, and the decisions an import makes for each entity. (The snapshot
//! is written as JSON, and the service is called, by the application.)

use vstd::prelude::*;
use crate::mgmt::MgmtError;
use crate::model::{QueueProperties, RuleInfo, RuleProperties, SubscriptionProperties, TopicProperties};
use crate::text::{push_decimal, push_str, string_from_chars};

verus! {

broadcast use vstd::string::group_string_axioms;

/// Whether a rule counts as existing for an import: the subscription's rules
/// could be listed and one of them has the rule's name. (An entity of any
/// other kind exists when looking it up succeeds.)
pub open spec fn spec_rule_exists(listing: Result<Vec<RuleInfo>, MgmtError>, name: Seq<char>) -> bool {
    listing matches Ok(v) && exists|i: int| 0 <= i < v@.len() && (#[trigger] v@[i]).properties.name@ == name
}

pub fn rule_exists(listing: &Result<Vec<RuleInfo>, MgmtError>, name: &String) -> (r: bool)
    ensures
        r == spec_rule_exists(*listing, name@),
{
    match listing {
        Err(_) => false,
        Ok(v) => {
            let mut i: usize = 0;
            while i < v.len()
                invariant
                    i <= v.len(),
                    *listing == Ok::<Vec<RuleInfo>, MgmtError>(*v),
                    forall|j: int| 0 <= j < i ==> (#[trigger] v@[j]).properties.name@ != name@,
                decreases v.len() - i,
            {
                if v[i].properties.name == *name {
                    assert(v@[i as int].properties.name@ == name@);
                    return true;
                }
                i = i + 1;
            }
            false
        },
    }
}

/// Everything that is exported and re-created: entity descriptions only
/// (no message data, no runtime counters).
#[derive(Clone, Debug)]
pub struct NamespaceExport {
    /// Schema marker so future formats can be told apart.
    pub sift_export_version: u32,
    pub queues: Vec<QueueProperties>,
    pub topics: Vec<TopicProperties>,
    pub subscriptions: Vec<SubscriptionProperties>,
    pub rules: Vec<RuleProperties>,
}

impl NamespaceExport {
    /// The current snapshot version.
    pub const VERSION: u32 = 1;

    /// An empty snapshot of the current version.
    pub fn new() -> (r: NamespaceExport)
        ensures
            r.sift_export_version == 1,
            r.queues@.len() == 0,
            r.topics@.len() == 0,
            r.subscriptions@.len() == 0,
            r.rules@.len() == 0,
    {
        NamespaceExport {
            sift_export_version: 1,
            queues: Vec::new(),
            topics: Vec::new(),
            subscriptions: Vec::new(),
            rules: Vec::new(),
        }
    }

    /// How many entities the snapshot describes.
    pub fn entity_count(&self) -> (r: usize)
        requires
            self.queues@.len() + self.topics@.len() + self.subscriptions@.len() + self.rules@.len()
                <= usize::MAX,
        ensures
            r == self.queues@.len() + self.topics@.len() + self.subscriptions@.len()
                + self.rules@.len(),
    {
        self.queues.len() + self.topics.len() + self.subscriptions.len() + self.rules.len()
    }
}

/// How to treat an entity that already exists on import.
#[derive(Clone, Copy, Debug, PartialEq, Eq, Structural)]
pub enum ImportPolicy {
    /// Leave existing entities untouched.
    Skip,
    /// Update existing entities to match the import.
    Overwrite,
}

/// What an import does with one entity.
#[derive(Clone, Copy, Debug, PartialEq, Eq, Structural)]
pub enum ImportStep {
    /// Leave it as it is.
    Skip,
    /// Update the existing entity.
    Update,
    /// Create it.
    Create,
    /// Delete it and create it again (rules have no update).
    Recreate,
}

/// An entity that does not exist is created; an existing one is skipped or
/// updated as the policy says.
pub open spec fn spec_entity_step(exists: bool, policy: ImportPolicy) -> ImportStep {
    if !exists {
        ImportStep::Create
    } else if policy == ImportPolicy::Skip {
        ImportStep::Skip
    } else {
        ImportStep::Update
    }
}

/// A rule that does not exist is created; an existing one is skipped or
/// recreated as the policy says.
pub open spec fn spec_rule_step(exists: bool, policy: ImportPolicy) -> ImportStep {
    if !exists {
        ImportStep::Create
    } else if policy == ImportPolicy::Skip {
        ImportStep::Skip
    } else {
        ImportStep::Recreate
    }
}

/// The step for an entity that can be updated in place.
pub fn entity_step(exists: bool, policy: ImportPolicy) -> (r: ImportStep)
    ensures
        r == spec_entity_step(exists, policy),
{
    if !exists {
        ImportStep::Create
    } else {
        match policy {
            ImportPolicy::Skip => ImportStep::Skip,
            ImportPolicy::Overwrite => ImportStep::Update,
        }
    }
}

/// The step for a rule, which has no update: an existing rule is recreated
/// on overwrite.
pub fn rule_step(exists: bool, policy: ImportPolicy) -> (r: ImportStep)
    ensures
        r == spec_rule_step(exists, policy),
{
    if !exists {
        ImportStep::Create
    } else {
        match policy {
            ImportPolicy::Skip => ImportStep::Skip,
            ImportPolicy::Overwrite => ImportStep::Recreate,
        }
    }
}

/// Result of an import: created, updated, skipped, and per-entity errors.
#[derive(Clone, Debug)]
pub struct ImportOutcome {
    pub created: usize,
    pub updated: usize,
    pub skipped: usize,
    pub errors: Vec<String>,
}

pub open spec fn outcome_summary(created: nat, updated: nat, skipped: nat, errors: nat) -> Seq<char> {
    crate::text::decimal(created) + " created, "@ + crate::text::decimal(updated) + " updated, "@
        + crate::text::decimal(skipped) + " skipped, "@ + crate::text::decimal(errors)
        + " error(s)"@
}

impl Default for ImportOutcome {
    fn default() -> (r: ImportOutcome)
        ensures
            r.created == 0,
            r.updated == 0,
            r.skipped == 0,
            r.errors@.len() == 0,
    {
        ImportOutcome { created: 0, updated: 0, skipped: 0, errors: Vec::new() }
    }
}

impl ImportOutcome {
    /// Record what a step came to: a skip, or the result of the service call
    /// the step asked for (the error's text on failure). `label` names the
    /// entity.
    pub fn record(&mut self, step: ImportStep, label: &str, result: Result<(), String>)
        requires
            old(self).created < usize::MAX,
            old(self).updated < usize::MAX,
            old(self).skipped < usize::MAX,
        ensures
            step == ImportStep::Skip ==> *final(self) == (ImportOutcome {
                skipped: (old(self).skipped + 1) as usize,
                ..*old(self)
            }),
            step != ImportStep::Skip && result is Ok && step == ImportStep::Create ==> *final(self)
                == (ImportOutcome { created: (old(self).created + 1) as usize, ..*old(self) }),
            step != ImportStep::Skip && result is Ok && step != ImportStep::Create ==> *final(self)
                == (ImportOutcome { updated: (old(self).updated + 1) as usize, ..*old(self) }),
            step != ImportStep::Skip ==> (result matches Err(e) ==> (final(self).created == old(self).created
                && final(self).updated == old(self).updated && final(self).skipped == old(self).skipped
                && final(self).errors@.len() == old(self).errors@.len() + 1
                && final(self).errors@.drop_last() == old(self).errors@
                && final(self).errors@.last()@ == label@ + ": "@ + e@)),
    {
        match step {
            ImportStep::Skip => {
                self.skipped = self.skipped + 1;
            },
            _ => match result {
                Ok(()) => {
                    if step == ImportStep::Create {
                        self.created = self.created + 1;
                    } else {
                        self.updated = self.updated + 1;
                    }
                },
                Err(e) => {
                    let mut v: Vec<char> = Vec::new();
                    push_str(&mut v, label);
                    push_str(&mut v, ": ");
                    push_str(&mut v, e.as_str());
                    let ghost before = self.errors@;
                    self.errors.push(string_from_chars(v.as_slice()));
                    assert(self.errors@.drop_last() =~= before);
                },
            },
        }
    }

    /// "N created, N updated, N skipped, N error(s)".
    pub fn summary(&self) -> (r: String)
        ensures
            r@ == outcome_summary(
                self.created as nat,
                self.updated as nat,
                self.skipped as nat,
                self.errors@.len(),
            ),
    {
        let mut v: Vec<char> = Vec::new();
        push_decimal(&mut v, self.created as u64);
        push_str(&mut v, " created, ");
        push_decimal(&mut v, self.updated as u64);
        push_str(&mut v, " updated, ");
        push_decimal(&mut v, self.skipped as u64);
        push_str(&mut v, " skipped, ");
        push_decimal(&mut v, self.errors.len() as u64);
        push_str(&mut v, " error(s)");
        string_from_chars(v.as_slice())
    }
}

// ---- the import, one service call at a time ----------------------------------------------

/// What kind of entity a position of the snapshot holds: queues first, then
/// topics, subscriptions and rules, in the snapshot's order (parents are
/// created before their children).
#[derive(Clone, Copy, Debug, PartialEq, Eq, Structural)]
pub enum EntityKind {
    Queue,
    Topic,
    Subscription,
    Rule,
}

/// How many entities the snapshot describes.
pub open spec fn total_of(data: NamespaceExport) -> int {
    (data.queues@.len() + data.topics@.len() + data.subscriptions@.len() + data.rules@.len()) as int
}

/// The kind of entity at position `p`, and its index among that kind.
pub open spec fn entity_at(data: NamespaceExport, p: int) -> (EntityKind, int) {
    let q = data.queues@.len() as int;
    let t = data.topics@.len() as int;
    let s = data.subscriptions@.len() as int;
    if p < q {
        (EntityKind::Queue, p)
    } else if p < q + t {
        (EntityKind::Topic, p - q)
    } else if p < q + t + s {
        (EntityKind::Subscription, p - q - t)
    } else {
        (EntityKind::Rule, p - q - t - s)
    }
}

/// The name an entity is reported under: a queue's or topic's name,
/// `topic/name` for a subscription, `topic/subscription/name` for a rule.
pub open spec fn label_at(data: NamespaceExport, p: int) -> Seq<char> {
    let (k, i) = entity_at(data, p);
    match k {
        EntityKind::Queue => data.queues@[i].name@,
        EntityKind::Topic => data.topics@[i].name@,
        EntityKind::Subscription => data.subscriptions@[i].topic@ + "/"@ + data.subscriptions@[i].name@,
        EntityKind::Rule => data.rules@[i].topic@ + "/"@ + data.rules@[i].subscription@ + "/"@
            + data.rules@[i].name@,
    }
}

/// The step for the entity at position `p`, given whether it exists.
pub open spec fn step_at(data: NamespaceExport, p: int, exists: bool, policy: ImportPolicy) -> ImportStep {
    if entity_at(data, p).0 == EntityKind::Rule {
        spec_rule_step(exists, policy)
    } else {
        spec_entity_step(exists, policy)
    }
}

/// A service call the import asks the application to make for the entity
/// at `position` of the snapshot.
#[derive(Clone, Copy, Debug, PartialEq, Eq, Structural)]
pub enum ImportCall {
    /// Find out whether the entity exists.
    Lookup { kind: EntityKind, index: usize, position: usize },
    /// Carry out the step (for `Recreate`, delete the rule and create it).
    Apply { kind: EntityKind, index: usize, position: usize, step: ImportStep },
}

/// Where an import stands: the position of the entity being imported.
#[derive(Clone, Copy, Debug, PartialEq, Eq, Structural)]
pub struct ImportCursor {
    pub position: usize,
}

fn kind_at(data: &NamespaceExport, p: usize) -> (r: (EntityKind, usize))
    requires
        p < total_of(*data),
    ensures
        r.0 == entity_at(*data, p as int).0,
        r.1 == entity_at(*data, p as int).1,
{
    let q = data.queues.len();
    let t = data.topics.len();
    let s = data.subscriptions.len();
    if p < q {
        (EntityKind::Queue, p)
    } else if p - q < t {
        (EntityKind::Topic, p - q)
    } else if p - q - t < s {
        (EntityKind::Subscription, p - q - t)
    } else {
        (EntityKind::Rule, p - q - t - s)
    }
}

fn label_of(data: &NamespaceExport, p: usize) -> (r: String)
    requires
        p < total_of(*data),
    ensures
        r@ == label_at(*data, p as int),
{
    let (k, i) = kind_at(data, p);
    let mut v: Vec<char> = Vec::new();
    match k {
        EntityKind::Queue => push_str(&mut v, data.queues[i].name.as_str()),
        EntityKind::Topic => push_str(&mut v, data.topics[i].name.as_str()),
        EntityKind::Subscription => {
            push_str(&mut v, data.subscriptions[i].topic.as_str());
            push_str(&mut v, "/");
            push_str(&mut v, data.subscriptions[i].name.as_str());
        },
        EntityKind::Rule => {
            push_str(&mut v, data.rules[i].topic.as_str());
            push_str(&mut v, "/");
            push_str(&mut v, data.rules[i].subscription.as_str());
            push_str(&mut v, "/");
            push_str(&mut v, data.rules[i].name.as_str());
        },
    }
    let r = string_from_chars(v.as_slice());
    assert(r@ =~= label_at(*data, p as int));
    r
}

impl ImportCursor {
    /// An import at its first entity.
    pub fn start() -> (r: ImportCursor)
        ensures
            r.position == 0,
    {
        ImportCursor { position: 0 }
    }

    /// The next call: a lookup of the current entity, or `None` once every
    /// entity of the snapshot is done.
    pub fn next_call(&self, data: &NamespaceExport) -> (r: Option<ImportCall>)
        requires
            total_of(*data) <= usize::MAX,
        ensures
            self.position >= total_of(*data) ==> r is None,
            self.position < total_of(*data) ==> r == Some(ImportCall::Lookup {
                kind: entity_at(*data, self.position as int).0,
                index: entity_at(*data, self.position as int).1 as usize,
                position: self.position,
            }),
    {
        let total = data.queues.len() + data.topics.len() + data.subscriptions.len() + data.rules.len();
        if self.position < total {
            let (kind, index) = kind_at(data, self.position);
            Some(ImportCall::Lookup { kind, index, position: self.position })
        } else {
            None
        }
    }

    /// Take in whether the current entity exists (for a rule, as
    /// [`rule_exists`] decides from its subscription's listing; for any other
    /// entity, whether looking it up succeeded). An entity to skip is
    /// counted and the import moves on (`None`); otherwise the step to carry
    /// out is asked for and the import waits for its result.
    pub fn on_lookup(
        &mut self,
        data: &NamespaceExport,
        policy: ImportPolicy,
        outcome: &mut ImportOutcome,
        exists: bool,
    ) -> (r: Option<ImportCall>)
        requires
            total_of(*data) <= usize::MAX,
            old(self).position < total_of(*data),
            old(outcome).skipped < usize::MAX,
        ensures
            step_at(*data, old(self).position as int, exists, policy) == ImportStep::Skip ==> {
                &&& r is None
                &&& final(self).position == old(self).position + 1
                &&& *final(outcome) == (ImportOutcome {
                    skipped: (old(outcome).skipped + 1) as usize,
                    ..*old(outcome)
                })
            },
            step_at(*data, old(self).position as int, exists, policy) != ImportStep::Skip ==> {
                &&& r == Some(ImportCall::Apply {
                    kind: entity_at(*data, old(self).position as int).0,
                    index: entity_at(*data, old(self).position as int).1 as usize,
                    position: old(self).position,
                    step: step_at(*data, old(self).position as int, exists, policy),
                })
                &&& *final(self) == *old(self)
                &&& *final(outcome) == *old(outcome)
            },
    {
        let (kind, index) = kind_at(data, self.position);
        let step = match kind {
            EntityKind::Rule => rule_step(exists, policy),
            _ => entity_step(exists, policy),
        };
        match step {
            ImportStep::Skip => {
                outcome.skipped = outcome.skipped + 1;
                self.position = self.position + 1;
                None
            },
            _ => Some(ImportCall::Apply { kind, index, position: self.position, step }),
        }
    }

    /// Take in the result of the step carried out for the current entity:
    /// it is counted (an error under the entity's label) and the import
    /// moves on.
    pub fn on_applied(
        &mut self,
        data: &NamespaceExport,
        outcome: &mut ImportOutcome,
        step: ImportStep,
        result: Result<(), String>,
    )
        requires
            total_of(*data) <= usize::MAX,
            old(self).position < total_of(*data),
            step != ImportStep::Skip,
            old(outcome).created < usize::MAX,
            old(outcome).updated < usize::MAX,
            old(outcome).skipped < usize::MAX,
        ensures
            final(self).position == old(self).position + 1,
            result is Ok && step == ImportStep::Create ==> *final(outcome) == (ImportOutcome {
                created: (old(outcome).created + 1) as usize,
                ..*old(outcome)
            }),
            result is Ok && step != ImportStep::Create ==> *final(outcome) == (ImportOutcome {
                updated: (old(outcome).updated + 1) as usize,
                ..*old(outcome)
            }),
            result matches Err(e) ==> {
                &&& final(outcome).created == old(outcome).created
                &&& final(outcome).updated == old(outcome).updated
                &&& final(outcome).skipped == old(outcome).skipped
                &&& final(outcome).errors@.drop_last() == old(outcome).errors@
                &&& final(outcome).errors@.len() == old(outcome).errors@.len() + 1
                &&& final(outcome).errors@.last()@ == label_at(*data, old(self).position as int) + ": "@ + e@
            },
    {
        let label = label_of(data, self.position);
        outcome.record(step, label.as_str(), result);
        self.position = self.position + 1;
    }
}

pub open spec fn kind_rank(k: EntityKind) -> int {
    match k {
        EntityKind::Queue => 0,
        EntityKind::Topic => 1,
        EntityKind::Subscription => 2,
        EntityKind::Rule => 3,
    }
}

/// An import creates parents before children: every queue comes before
/// every topic, topics before subscriptions, subscriptions before rules,
/// and within a kind the snapshot's order is kept.
pub proof fn law_import_order(data: NamespaceExport, p1: int, p2: int)
    requires
        0 <= p1 < p2 < total_of(data),
    ensures
        kind_rank(entity_at(data, p1).0) <= kind_rank(entity_at(data, p2).0),
        entity_at(data, p1).0 == entity_at(data, p2).0 ==> entity_at(data, p1).1 < entity_at(data, p2).1,
        0 <= entity_at(data, p2).1,
{
}

} // verus!
