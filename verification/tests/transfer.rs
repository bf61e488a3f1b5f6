use sift::mgmt::MgmtError;
use sift::model::{QueueProperties, RuleFilter, RuleInfo, RuleProperties, SubscriptionProperties, TopicProperties};
use sift::transfer::rule_exists;
use sift::transfer::{EntityKind, ImportCall, ImportCursor, ImportOutcome, ImportPolicy, ImportStep, NamespaceExport};

fn snapshot() -> NamespaceExport {
    let mut data = NamespaceExport::new();
    let mut q = QueueProperties::default();
    q.name = "orders".to_owned();
    data.queues.push(q);
    let mut t = TopicProperties::default();
    t.name = "events".to_owned();
    data.topics.push(t);
    let mut s = SubscriptionProperties::default();
    s.topic = "events".to_owned();
    s.name = "audit".to_owned();
    data.subscriptions.push(s);
    data.rules.push(RuleProperties {
        topic: "events".to_owned(),
        subscription: "audit".to_owned(),
        name: "all".to_owned(),
        filter: RuleFilter::True,
        action: None,
    });
    data
}

/// Runs an import against a service where `existing` positions exist and
/// `failing` positions fail; returns the calls made and the outcome.
fn run(policy: ImportPolicy, existing: &[usize], failing: &[usize]) -> (Vec<ImportCall>, ImportOutcome) {
    let data = snapshot();
    let mut cursor = ImportCursor::start();
    let mut outcome = ImportOutcome::default();
    let mut calls = Vec::new();
    while let Some(lookup) = cursor.next_call(&data) {
        calls.push(lookup);
        let exists = existing.contains(&cursor.position);
        if let Some(apply) = cursor.on_lookup(&data, policy, &mut outcome, exists) {
            calls.push(apply);
            if let ImportCall::Apply { step, position, .. } = apply {
                let result = if failing.contains(&position) { Err("boom".to_owned()) } else { Ok(()) };
                cursor.on_applied(&data, &mut outcome, step, result);
            }
        }
    }
    (calls, outcome)
}

#[test]
fn import_creates_parents_before_children() {
    let (calls, outcome) = run(ImportPolicy::Skip, &[], &[]);
    let kinds: Vec<EntityKind> = calls
        .iter()
        .filter_map(|c| match c {
            ImportCall::Apply { kind, step, .. } => {
                assert_eq!(*step, ImportStep::Create);
                Some(*kind)
            }
            _ => None,
        })
        .collect();
    assert_eq!(kinds, vec![EntityKind::Queue, EntityKind::Topic, EntityKind::Subscription, EntityKind::Rule]);
    assert_eq!((outcome.created, outcome.updated, outcome.skipped), (4, 0, 0));
}

#[test]
fn import_skips_or_overwrites_existing_entities() {
    let (_, outcome) = run(ImportPolicy::Skip, &[0, 3], &[]);
    assert_eq!((outcome.created, outcome.updated, outcome.skipped), (2, 0, 2));
    let (calls, outcome) = run(ImportPolicy::Overwrite, &[0, 3], &[]);
    assert!(calls.contains(&ImportCall::Apply {
        kind: EntityKind::Rule,
        index: 0,
        position: 3,
        step: ImportStep::Recreate
    }));
    assert_eq!((outcome.created, outcome.updated, outcome.skipped), (2, 2, 0));
}

#[test]
fn import_errors_name_the_entity() {
    let (_, outcome) = run(ImportPolicy::Skip, &[], &[2, 3]);
    assert_eq!(outcome.errors, vec!["events/audit: boom".to_owned(), "events/audit/all: boom".to_owned()]);
    assert_eq!(outcome.created, 2);
}

#[test]
fn a_rule_exists_when_its_subscription_lists_it() {
    let rule = |name: &str| RuleInfo {
        properties: RuleProperties {
            topic: "events".to_owned(),
            subscription: "audit".to_owned(),
            name: name.to_owned(),
            filter: RuleFilter::True,
            action: None,
        },
        created_at: None,
    };
    let listing: Result<Vec<RuleInfo>, MgmtError> = Ok(vec![rule("$Default"), rule("all")]);
    assert!(rule_exists(&listing, &"all".to_owned()));
    assert!(!rule_exists(&listing, &"other".to_owned()));
    let failed: Result<Vec<RuleInfo>, MgmtError> = Err(MgmtError::NotFound { path: "x".to_owned() });
    assert!(!rule_exists(&failed, &"all".to_owned()));
}
