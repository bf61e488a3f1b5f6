use sift::bridge::{BackendError, RequestId};
use sift::connection::Endpoint;
use sift::mgmt::{
    MgmtError, found, next_page_skip, page_query, resource_uri, response_outcome, returned,
    subscription_path, url_for,
};
use sift::transfer::{
    ImportOutcome, ImportPolicy, ImportStep, NamespaceExport, entity_step, rule_step,
};
use sift::view_state::{EntityPage, Loadable, MessagesView, list_suffix};

#[test]
fn statuses_map_to_conditions() {
    assert!(matches!(MgmtError::from_status(401, "q", "d".into()), MgmtError::Unauthorized { .. }));
    assert!(matches!(MgmtError::from_status(403, "q", "d".into()), MgmtError::Forbidden { .. }));
    assert_eq!(
        MgmtError::from_status(404, "orders", "d".into()),
        MgmtError::NotFound { path: "orders".into() }
    );
    assert!(matches!(MgmtError::from_status(409, "q", "d".into()), MgmtError::Conflict { .. }));
    assert!(matches!(MgmtError::from_status(400, "q", "d".into()), MgmtError::BadRequest { .. }));
    assert!(matches!(MgmtError::from_status(429, "q", "d".into()), MgmtError::Throttled { .. }));
    assert!(matches!(MgmtError::from_status(503, "q", "d".into()), MgmtError::Throttled { .. }));
    assert_eq!(
        MgmtError::from_status(500, "q", "boom".into()),
        MgmtError::Server { status: 500, detail: "boom".into() }
    );
}

#[test]
fn only_transient_failures_are_retryable() {
    assert!(MgmtError::Throttled { detail: String::new() }.is_retryable());
    assert!(MgmtError::Server { status: 502, detail: String::new() }.is_retryable());
    assert!(!MgmtError::Server { status: 418, detail: String::new() }.is_retryable());
    assert!(MgmtError::Http { message: String::new(), is_timeout: true, is_connect: false }.is_retryable());
    assert!(!MgmtError::Http { message: String::new(), is_timeout: false, is_connect: false }.is_retryable());
    assert!(!MgmtError::NotFound { path: "x".into() }.is_retryable());
}

#[test]
fn error_messages_read_as_sentences() {
    assert_eq!(MgmtError::NotFound { path: "orders".into() }.message(), "'orders' was not found");
    assert_eq!(
        MgmtError::Server { status: 502, detail: "bad gateway".into() }.message(),
        "the service returned HTTP 502: bad gateway"
    );
}

#[test]
fn client_helpers() {
    assert_eq!(subscription_path("events", "audit"), "events/subscriptions/audit");
    assert_eq!(found(Some(3), "p"), Ok(3));
    assert_eq!(found::<u8>(None, "p"), Err(MgmtError::NotFound { path: "p".into() }));
    assert_eq!(
        returned::<u8>(None),
        Err(MgmtError::Xml("the service response did not contain an entity description".into()))
    );
    assert_eq!(next_page_skip(0, 100), Some(100));
    assert_eq!(next_page_skip(100, 99), None);
}

#[test]
fn import_steps_follow_the_policy() {
    assert_eq!(entity_step(false, ImportPolicy::Skip), ImportStep::Create);
    assert_eq!(entity_step(true, ImportPolicy::Skip), ImportStep::Skip);
    assert_eq!(entity_step(true, ImportPolicy::Overwrite), ImportStep::Update);
    assert_eq!(rule_step(true, ImportPolicy::Overwrite), ImportStep::Recreate);
    assert_eq!(rule_step(false, ImportPolicy::Overwrite), ImportStep::Create);
}

#[test]
fn outcome_counts_and_summary() {
    let mut outcome = ImportOutcome::default();
    outcome.record(ImportStep::Create, "q1", Ok(()));
    outcome.record(ImportStep::Update, "q2", Ok(()));
    outcome.record(ImportStep::Recreate, "t/s/r", Ok(()));
    outcome.record(ImportStep::Skip, "q3", Ok(()));
    outcome.record(ImportStep::Create, "q4", Err("conflict".into()));
    assert_eq!(outcome.created, 1);
    assert_eq!(outcome.updated, 2);
    assert_eq!(outcome.skipped, 1);
    assert_eq!(outcome.errors, vec!["q4: conflict".to_owned()]);
    assert_eq!(outcome.summary(), "1 created, 2 updated, 1 skipped, 1 error(s)");
}

#[test]
fn export_counts_entities() {
    let mut export = NamespaceExport::new();
    assert_eq!(export.sift_export_version, NamespaceExport::VERSION);
    assert_eq!(export.entity_count(), 0);
    export.queues.push(sift::model::QueueProperties::default());
    export.topics.push(sift::model::TopicProperties::default());
    assert_eq!(export.entity_count(), 2);
}

#[test]
fn backend_errors_and_requests() {
    let e = BackendError::new("nope".into());
    assert_eq!(e.message, "nope");
    assert!(e.detail.is_none());
    let d = BackendError::with_detail("nope".into(), "why".into());
    assert_eq!(d.detail.as_deref(), Some("why"));
    assert_eq!(RequestId(4), RequestId(4));
}

#[test]
fn list_suffix_shows_loaded_counts() {
    assert_eq!(list_suffix(&Loadable::Loaded(vec![1, 2, 3])), " (3)");
    assert_eq!(list_suffix::<u8>(&Loadable::Loading), "");
    assert_eq!(list_suffix::<u8>(&Loadable::Failed("x".into())), "");
    assert_eq!(EntityPage::default(), EntityPage::Overview);
}

#[test]
fn empty_messages_view() {
    let view = MessagesView::new(50);
    assert_eq!(view.fetch_count, 50);
    assert!(view.next_seq().is_none());
    assert!(view.selected_message().is_none());
}

#[test]
fn successful_responses_yield_their_body() {
    assert_eq!(response_outcome(200, "q", "<feed/>".to_owned()), Ok("<feed/>".to_owned()));
    assert_eq!(response_outcome(201, "q", "<entry/>".to_owned()), Ok("<entry/>".to_owned()));
    assert_eq!(
        response_outcome(404, "q", "gone".to_owned()),
        Err(MgmtError::NotFound { path: "q".to_owned() })
    );
    assert_eq!(
        response_outcome(500, "q", "boom".to_owned()),
        Err(MgmtError::Server { status: 500, detail: "boom".to_owned() })
    );
    assert_eq!(
        response_outcome(302, "q", "moved".to_owned()),
        Err(MgmtError::Server { status: 302, detail: "moved".to_owned() })
    );
}

#[test]
fn request_urls_carry_the_api_version_and_paging() {
    let base = Endpoint::parse("https://ns.servicebus.windows.net/").unwrap();
    let url = url_for(&base, "$Resources/queues", &page_query(200)).unwrap();
    assert_eq!(
        url.as_str(),
        "https://ns.servicebus.windows.net/$Resources/queues?api-version=2021-05&%24skip=200&%24top=100"
    );
    assert_eq!(resource_uri(&url), "https://ns.servicebus.windows.net/$Resources/queues");

    let url = url_for(&base, &subscription_path("orders", "audit"), &[]).unwrap();
    assert_eq!(
        url.as_str(),
        "https://ns.servicebus.windows.net/orders/subscriptions/audit?api-version=2021-05"
    );
    assert_eq!(resource_uri(&url), "https://ns.servicebus.windows.net/orders/subscriptions/audit");

    let local = Endpoint::parse("http://localhost:5300/").unwrap();
    let url = url_for(&local, "$namespaceinfo", &[]).unwrap();
    assert_eq!(resource_uri(&url), "http://localhost/$namespaceinfo");
}

#[test]
fn page_query_names_skip_and_top() {
    let q = page_query(0);
    assert_eq!(q, vec![("$skip".to_owned(), "0".to_owned()), ("$top".to_owned(), "100".to_owned())]);
}
