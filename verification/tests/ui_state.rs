use sift::body::DecodedBody;
use sift::bridge::{
    BackendError, Disposition, EntityDescription, EntityInfo, EntityPath, MessageSource,
    ReceiveMode, RequestId, description_of,
};
use sift::config::{NamespaceProfile, ProfileId};
use sift::message::{MessageState, SiftMessage};
use sift::model::{
    EntityRuntimeInfo, MessageCountDetails, NamespaceInfo, QueueInfo, QueueProperties,
};
use sift::view_state::{
    AppAction, ConnectOutcome, ConnectionState, EntityPage, EntityTabState, EntityTree, KeyedList, Loadable,
    MessagesView, begin_connect, entity_label, export_file_name, finish_connect,
    finish_disconnect, label_warns, load_result,
};

fn info() -> NamespaceInfo {
    NamespaceInfo {
        name: "ns".to_owned(),
        alias: None,
        namespace_type: None,
        messaging_sku: None,
        messaging_units: None,
        created_time: None,
        modified_time: None,
    }
}

#[test]
fn namespace_id_follows_the_connection() {
    let id = ProfileId { value: 7 };
    assert_eq!(ConnectionState::default().namespace_id(), None);
    let connecting = ConnectionState::Connecting { profile_id: id, name: "a".to_owned() };
    assert_eq!(connecting.namespace_id(), Some(id));
    let connected = ConnectionState::Connected { profile_id: id, name: "a".to_owned(), info: info() };
    assert_eq!(connected.namespace_id(), Some(id));
}

#[test]
fn keyed_lists_replace_and_remove_by_key() {
    let mut list: KeyedList<String, u32> = KeyedList::new();
    assert_eq!(list.get(&"a".to_owned()), None);
    list.insert("a".to_owned(), 1);
    list.insert("b".to_owned(), 2);
    list.insert("a".to_owned(), 3);
    assert_eq!(list.get(&"a".to_owned()), Some(&3));
    assert_eq!(list.get(&"b".to_owned()), Some(&2));
    list.remove(&"a".to_owned());
    assert_eq!(list.get(&"a".to_owned()), None);
    assert_eq!(list.get(&"b".to_owned()), Some(&2));

    let mut pairs: KeyedList<(String, String), &str> = KeyedList::new();
    pairs.insert(("t".to_owned(), "s".to_owned()), "x");
    assert_eq!(pairs.get(&("t".to_owned(), "s".to_owned())), Some(&"x"));
    assert_eq!(pairs.get(&("t".to_owned(), "u".to_owned())), None);
}

#[test]
fn invalidating_drops_only_the_list_that_holds_the_entity() {
    let mut tree = EntityTree::new();
    tree.queues = Loadable::Loaded(Vec::new());
    tree.topics = Loadable::Loaded(Vec::new());
    tree.subscriptions.insert("orders".to_owned(), Loadable::Loaded(Vec::new()));
    tree.subscriptions.insert("events".to_owned(), Loadable::Loading);
    tree.rules.insert(("orders".to_owned(), "audit".to_owned()), Loadable::Loading);

    tree.invalidate_list_for(&EntityPath::Subscription {
        topic: "orders".to_owned(),
        name: "audit".to_owned(),
    });
    assert!(tree.subscriptions.get(&"orders".to_owned()).is_none());
    assert!(matches!(tree.subscriptions.get(&"events".to_owned()), Some(Loadable::Loading)));
    assert!(matches!(tree.queues, Loadable::Loaded(_)));

    tree.invalidate_list_for(&EntityPath::Rule {
        topic: "orders".to_owned(),
        subscription: "audit".to_owned(),
        name: "$Default".to_owned(),
    });
    assert!(tree.rules.get(&("orders".to_owned(), "audit".to_owned())).is_none());

    tree.invalidate_list_for(&EntityPath::Queue("q".to_owned()));
    assert!(matches!(tree.queues, Loadable::NotLoaded));
    assert!(matches!(tree.topics, Loadable::Loaded(_)));

    tree.clear();
    assert!(matches!(tree.topics, Loadable::NotLoaded));
    assert!(tree.subscriptions.get(&"events".to_owned()).is_none());
}

#[test]
fn entity_tabs_start_on_the_overview_with_empty_views() {
    let mut tab = EntityTabState::new(25);
    assert_eq!(tab.page, EntityPage::Overview);
    assert!(matches!(tab.info, Loadable::NotLoaded));
    assert_eq!(tab.main.fetch_count, 25);
    tab.view_mut(true).show_hex = true;
    assert!(tab.dead_letter.show_hex);
    assert!(!tab.main.show_hex);
}

#[test]
fn tree_labels_show_counts_when_known() {
    let counts = MessageCountDetails {
        active: 14,
        dead_letter: 2,
        scheduled: 0,
        transfer: 0,
        transfer_dead_letter: 0,
    };
    assert_eq!(entity_label("Q", "orders", Some(&counts)), "Q orders (14, 2, 0)");
    assert_eq!(entity_label("T", "events", None), "T events");
    assert!(label_warns(Some(&counts)));
    assert!(!label_warns(None));
}

#[test]
fn connect_answers_are_matched_to_the_request_in_flight() {
    let profile = NamespaceProfile::new_connection_string("prod".to_owned());
    let (mut conn, pending) = begin_connect(RequestId(4), &profile);
    assert_eq!(conn.namespace_id(), Some(profile.id));
    let mut pending = Some(pending);

    let stale = finish_connect(&mut conn, &mut pending, RequestId(3), profile.id, Ok(info()));
    assert!(matches!(stale, ConnectOutcome::Stale));
    assert!(pending.is_some());
    assert!(matches!(conn, ConnectionState::Connecting { .. }));

    let done = finish_connect(&mut conn, &mut pending, RequestId(4), profile.id, Ok(info()));
    match done {
        ConnectOutcome::Connected(message) => assert_eq!(message, "Connected to ns"),
        other => panic!("unexpected {other:?}"),
    }
    assert!(pending.is_none());
    match &conn {
        ConnectionState::Connected { name, .. } => assert_eq!(name, "prod"),
        other => panic!("unexpected {other:?}"),
    }
    assert_eq!(export_file_name(&conn), "ns-export.json");

    assert!(!finish_disconnect(&mut conn, ProfileId { value: 1 }));
    assert!(finish_disconnect(&mut conn, profile.id));
    assert!(matches!(conn, ConnectionState::Disconnected));
    assert_eq!(export_file_name(&conn), "sift-export.json");
}

#[test]
fn failed_connects_disconnect_with_the_error() {
    let profile = NamespaceProfile::new_connection_string("prod".to_owned());
    let (mut conn, pending) = begin_connect(RequestId(1), &profile);
    let mut pending = Some(pending);
    let failed = finish_connect(
        &mut conn,
        &mut pending,
        RequestId(1),
        profile.id,
        Err(BackendError::new("unauthorized".to_owned())),
    );
    match failed {
        ConnectOutcome::Failed(message) => assert_eq!(message, "unauthorized"),
        other => panic!("unexpected {other:?}"),
    }
    assert!(matches!(conn, ConnectionState::Disconnected));
}

#[test]
fn message_pages_replace_or_continue_the_list() {
    let mut view = MessagesView::new(10);
    view.loading = true;
    view.apply_messages(None, Ok(vec![row(1, Some("a")), row(2, Some("b"))]));
    assert!(!view.loading);
    assert_eq!(view.rows.len(), 2);
    view.selected = Some(1);
    view.apply_messages(Some(3), Ok(vec![row(3, None)]));
    assert_eq!(view.rows.len(), 3);
    assert_eq!(view.selected, Some(1));
    view.apply_messages(None, Err(BackendError::new("timeout".to_owned())));
    assert_eq!(view.error.as_deref(), Some("timeout"));
    assert_eq!(view.rows.len(), 3);
    view.apply_messages(None, Ok(vec![row(9, None)]));
    assert_eq!(view.rows.len(), 1);
    assert_eq!(view.selected, None);
    assert_eq!(view.error, None);
}

#[test]
fn abandoning_forgets_the_lock_but_keeps_the_row() {
    let mut view = MessagesView::new(10);
    view.rows = vec![row(1, Some("a")), row(2, Some("b"))];
    assert_eq!(view.find_lock("b"), Some(1));
    view.forget_lock("b");
    assert_eq!(view.rows.len(), 2);
    assert_eq!(view.rows[1].lock_token, None);
    assert_eq!(view.rows[0].lock_token.as_deref(), Some("a"));
    assert_eq!(view.find_lock("b"), None);
}

#[test]
fn loads_become_loaded_or_failed() {
    assert!(matches!(load_result::<u32>(Ok(3)), Loadable::Loaded(3)));
    match load_result::<u32>(Err(BackendError::new("nope".to_owned()))) {
        Loadable::Failed(m) => assert_eq!(m, "nope"),
        _ => panic!("expected a failure"),
    }
}

fn row(sequence_number: i64, lock: Option<&str>) -> SiftMessage {
    SiftMessage {
        sequence_number,
        message_id: None,
        state: MessageState::Active,
        application_properties: Vec::new(),
        body: DecodedBody::empty(),
        subject: None,
        content_type: None,
        correlation_id: None,
        session_id: None,
        reply_to: None,
        to: None,
        enqueued_time: None,
        expires_at: None,
        time_to_live: None,
        delivery_count: None,
        lock_token: lock.map(str::to_owned),
        locked_until: None,
        dead_letter_reason: None,
        dead_letter_error_description: None,
        dead_letter_source: None,
    }
}

#[test]
fn settled_messages_leave_the_list_unless_abandoned() {
    let mut view = MessagesView::new(10);
    view.rows = vec![row(1, Some("a")), row(2, Some("b")), row(3, Some("c"))];
    view.selected = Some(2);
    view.apply_settled(&Disposition::Abandon, "a");
    assert_eq!(view.rows.len(), 3);
    assert_eq!(view.rows[0].lock_token, None);
    view.apply_settled(&Disposition::Complete, "b");
    assert_eq!(view.rows.len(), 2);
    assert_eq!(view.selected, Some(1));
    view.apply_settled(
        &Disposition::DeadLetter { reason: Some("sift".to_owned()), description: None },
        "c",
    );
    assert_eq!(view.rows.len(), 1);
    assert_eq!(view.selected, None);
    view.apply_settled(&Disposition::Defer, "zzz");
    assert_eq!(view.rows.len(), 1);
}

#[test]
fn actions_carry_their_targets() {
    let source = MessageSource { entity: EntityPath::Queue("q".to_owned()), dead_letter: false };
    let action = AppAction::ReceiveMessages { source, mode: ReceiveMode::PeekLock, count: 5 };
    match action {
        AppAction::ReceiveMessages { mode, count, .. } => {
            assert_eq!(mode, ReceiveMode::PeekLock);
            assert_eq!(count, 5);
        }
        _ => panic!("unexpected action"),
    }
}

#[test]
fn updates_send_back_the_description() {
    let mut properties = QueueProperties::default();
    properties.name = "orders".to_owned();
    let info = EntityInfo::Queue(QueueInfo {
        properties,
        runtime: EntityRuntimeInfo {
            message_count: 3,
            size_in_bytes: 10,
            count_details: MessageCountDetails::default(),
            created_at: None,
            updated_at: None,
            accessed_at: None,
        },
    });
    match description_of(info) {
        EntityDescription::Queue(p) => assert_eq!(p.name, "orders"),
        _ => panic!("expected a queue description"),
    }
}

#[test]
fn taking_a_keyed_value_leaves_the_others() {
    let mut list: KeyedList<String, u32> = KeyedList::new();
    list.insert("a".to_owned(), 1);
    list.insert("b".to_owned(), 2);
    assert_eq!(list.take(&"a".to_owned()), Some(1));
    assert_eq!(list.take(&"a".to_owned()), None);
    assert_eq!(list.get(&"a".to_owned()), None);
    assert_eq!(list.get(&"b".to_owned()), Some(&2));
}
