use sift::actions::{UiRequest, UiState, run_action};
use sift::bridge::{EntityPath, MessageSource, RequestId};
use sift::config::ProfileId;
use sift::dialogs::PendingConfirm;
use sift::model::NamespaceInfo;
use sift::view_state::{AppAction, ConnectionState, CreateKind, EntityTree, KeyedList, Loadable};

fn state(connected: bool) -> UiState {
    let conn = if connected {
        ConnectionState::Connected {
            profile_id: ProfileId { value: 42 },
            name: "ns".to_owned(),
            info: NamespaceInfo {
                name: "ns".to_owned(),
                alias: None,
                namespace_type: None,
                messaging_sku: None,
                messaging_units: None,
                created_time: None,
                modified_time: None,
            },
        }
    } else {
        ConnectionState::Disconnected
    };
    UiState {
        conn,
        tree: EntityTree::new(),
        create_dialog: None,
        confirm: None,
        popped_out: Vec::new(),
        confirm_delete_typed_name: true,
        tabs: KeyedList::new(),
        peek_batch: 25,
    }
}

#[test]
fn loading_queues_marks_the_list_and_asks_the_backend() {
    let mut st = state(true);
    let r = run_action(&mut st, AppAction::LoadQueues, RequestId(5));
    assert!(matches!(st.tree.queues, Loadable::Loading));
    match r {
        Ok(Some(UiRequest::ListQueues { req, ns })) => {
            assert_eq!(req, RequestId(5));
            assert_eq!(ns, ProfileId { value: 42 });
        }
        other => panic!("unexpected {other:?}"),
    }
}

#[test]
fn without_a_connection_loads_ask_for_nothing() {
    let mut st = state(false);
    let r = run_action(&mut st, AppAction::LoadTopics, RequestId(1));
    assert!(matches!(r, Ok(None)));
    assert!(matches!(st.tree.topics, Loadable::NotLoaded));
    let r = run_action(&mut st, AppAction::Disconnect, RequestId(2));
    assert!(matches!(r, Ok(None)));
}

#[test]
fn loading_subscriptions_marks_only_that_topic() {
    let mut st = state(true);
    let r = run_action(&mut st, AppAction::LoadSubscriptions("orders".to_owned()), RequestId(3));
    assert!(matches!(st.tree.subscriptions.get(&"orders".to_owned()), Some(Loadable::Loading)));
    assert!(st.tree.subscriptions.get(&"other".to_owned()).is_none());
    match r {
        Ok(Some(UiRequest::ListSubscriptions { req, topic, .. })) => {
            assert_eq!(req, RequestId(3));
            assert_eq!(topic, "orders");
        }
        other => panic!("unexpected {other:?}"),
    }
}

#[test]
fn delete_requests_open_a_typed_name_confirmation() {
    let mut st = state(true);
    let path = EntityPath::Queue("orders".to_owned());
    let r = run_action(&mut st, AppAction::RequestDelete(path.clone()), RequestId(1));
    assert!(matches!(r, Ok(None)));
    let confirm = st.confirm.expect("a confirmation");
    assert_eq!(confirm.name, "orders");
    assert!(confirm.require_typed_name);
    assert!(confirm.typed.is_empty());
    assert!(matches!(confirm.action, PendingConfirm::Delete(p) if p == path));
}

#[test]
fn create_dialog_opens_fresh() {
    let mut st = state(false);
    let r = run_action(&mut st, AppAction::OpenCreateDialog(CreateKind::Topic), RequestId(1));
    assert!(matches!(r, Ok(None)));
    let d = st.create_dialog.expect("a dialog");
    assert_eq!(d.kind, CreateKind::Topic);
    assert!(d.name.is_empty());
    assert!(d.error.is_none());
}

#[test]
fn popping_out_and_docking_track_the_window_list() {
    let mut st = state(true);
    let path = EntityPath::Topic("events".to_owned());
    let r = run_action(&mut st, AppAction::PopOutEntity(path.clone()), RequestId(1));
    assert!(matches!(r, Err(AppAction::PopOutEntity(_))));
    let _ = run_action(&mut st, AppAction::PopOutEntity(path.clone()), RequestId(2));
    assert_eq!(st.popped_out, vec![path.clone()]);
    let r = run_action(&mut st, AppAction::DockEntity(path.clone()), RequestId(3));
    assert!(matches!(r, Err(AppAction::DockEntity(_))));
    assert!(st.popped_out.is_empty());
}

#[test]
fn peeking_names_the_source_and_start() {
    let mut st = state(true);
    let source = MessageSource { entity: EntityPath::Queue("q".to_owned()), dead_letter: true };
    let r = run_action(
        &mut st,
        AppAction::PeekMessages { source: source.clone(), from_seq: Some(9), count: 20 },
        RequestId(4),
    );
    match r {
        Ok(Some(UiRequest::PeekMessages { req, source: s, from_seq, count, .. })) => {
            assert_eq!(req, RequestId(4));
            assert_eq!(s, source);
            assert_eq!(from_seq, Some(9));
            assert_eq!(count, 20);
        }
        other => panic!("unexpected {other:?}"),
    }
    let tab = st.tabs.get(&source.entity).expect("the tab opens");
    assert!(tab.dead_letter.loading);
    assert!(tab.dead_letter.error.is_none());
    assert!(!tab.main.loading);
    assert_eq!(tab.main.fetch_count, 25);
}

#[test]
fn refreshing_an_entity_waits_for_its_information() {
    let mut st = state(true);
    let path = EntityPath::Subscription { topic: "t".to_owned(), name: "s".to_owned() };
    let r = run_action(&mut st, AppAction::RefreshEntity(path.clone()), RequestId(8));
    assert!(matches!(r, Ok(Some(UiRequest::GetEntity { req: RequestId(8), .. }))));
    assert!(matches!(st.tabs.get(&path).expect("the tab opens").info, Loadable::Loading));
    let other = EntityPath::Subscription { topic: "t".to_owned(), name: "x".to_owned() };
    assert!(st.tabs.get(&other).is_none());

    let mut offline = state(false);
    let r = run_action(&mut offline, AppAction::RefreshEntity(path.clone()), RequestId(9));
    assert!(matches!(r, Ok(None)));
    assert!(offline.tabs.get(&path).is_none());
}

#[test]
fn dialog_actions_are_handed_back() {
    let mut st = state(true);
    let r = run_action(&mut st, AppAction::OpenConnectDialog, RequestId(1));
    assert!(matches!(r, Err(AppAction::OpenConnectDialog)));
    let r = run_action(&mut st, AppAction::ImportLegacyProfiles, RequestId(1));
    assert!(matches!(r, Err(AppAction::ImportLegacyProfiles)));
}
