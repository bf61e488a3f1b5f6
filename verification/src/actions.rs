//! Carrying out what the widgets ask for: each action changes the view state
//! the library holds and names the backend request to send, if any. Actions
//! on windows, docks and dialogs that need the configuration are handed back
//! to the application.

use vstd::prelude::*;
use crate::bridge::{
    Disposition, EntityDescription, EntityInfo, EntityPath, MessageSource, ReceiveMode, RequestId,
    description_of, path_name, path_view,
};
use crate::config::ProfileId;
use crate::dialogs::{ConfirmDialog, CreateDialog, PendingConfirm};
use crate::view_state::{
    AppAction, ConnectionState, CreateKind, EntityPage, EntityTabState, EntityTree, KeyedList, Loadable,
    MessagesView, TreeKey,
};

verus! {

/// A request to the backend that an action makes.
#[derive(Debug)]
pub enum UiRequest {
    Disconnect { ns: ProfileId },
    ListQueues { req: RequestId, ns: ProfileId },
    ListTopics { req: RequestId, ns: ProfileId },
    ListSubscriptions { req: RequestId, ns: ProfileId, topic: String },
    ListRules { req: RequestId, ns: ProfileId, topic: String, subscription: String },
    GetEntity { req: RequestId, ns: ProfileId, path: EntityPath },
    UpdateEntity { req: RequestId, ns: ProfileId, desc: EntityDescription },
    PeekMessages { req: RequestId, ns: ProfileId, source: MessageSource, from_seq: Option<i64>, count: u32 },
    ReceiveMessages { req: RequestId, ns: ProfileId, source: MessageSource, mode: ReceiveMode, count: u32 },
    SettleMessage {
        req: RequestId,
        ns: ProfileId,
        source: MessageSource,
        lock_token: String,
        disposition: Disposition,
    },
}

/// The view state that actions change.
#[derive(Debug)]
pub struct UiState {
    pub conn: ConnectionState,
    pub tree: EntityTree,
    pub create_dialog: Option<CreateDialog>,
    pub confirm: Option<ConfirmDialog>,
    /// Entities shown in windows of their own rather than in the dock.
    pub popped_out: Vec<EntityPath>,
    /// Whether a destructive action asks for the entity's name to be typed.
    pub confirm_delete_typed_name: bool,
    /// The open entities' tab states.
    pub tabs: KeyedList<EntityPath, EntityTabState>,
    /// Messages fetched per peek or receive in a newly opened tab.
    pub peek_batch: u32,
}

pub open spec fn kind_mark(tag: int) -> char {
    if tag == 0 {
        'q'
    } else if tag == 1 {
        't'
    } else if tag == 2 {
        's'
    } else {
        'r'
    }
}

impl TreeKey for EntityPath {
    open spec fn key_view(&self) -> Seq<Seq<char>> {
        let p = path_view(*self);
        seq![seq![kind_mark(p.0)], p.1, p.2, p.3]
    }

    fn same_key(&self, other: &Self) -> (r: bool) {
        let r = same_path(self, other);
        proof {
            let a = path_view(*self);
            let b = path_view(*other);
            if !r {
                if a.0 != b.0 {
                    assert(self.key_view()[0][0] != other.key_view()[0][0]);
                } else if a.1 != b.1 {
                    assert(self.key_view()[1] != other.key_view()[1]);
                } else if a.2 != b.2 {
                    assert(self.key_view()[2] != other.key_view()[2]);
                } else {
                    assert(self.key_view()[3] != other.key_view()[3]);
                }
            } else {
                assert(self.key_view() =~= other.key_view());
            }
        }
        r
    }
}

/// A message view as it opens in a new tab.
pub open spec fn fresh_view(v: MessagesView, fetch_count: u32) -> bool {
    &&& v.rows@.len() == 0
    &&& v.selected is None
    &&& !v.loading
    &&& v.error is None
    &&& v.fetch_count == fetch_count
    &&& !v.show_hex
}

/// A tab state as it opens.
pub open spec fn fresh_tab(t: EntityTabState, fetch_count: u32) -> bool {
    &&& t.info is NotLoaded
    &&& t.page == EntityPage::Overview
    &&& fresh_view(t.main, fetch_count)
    &&& fresh_view(t.dead_letter, fetch_count)
}

/// `after` is `before` with the main or dead-letter view waiting for a load.
pub open spec fn tab_loading(before: EntityTabState, after: EntityTabState, dead_letter: bool) -> bool {
    if dead_letter {
        after == (EntityTabState {
            dead_letter: MessagesView { loading: true, error: None, ..before.dead_letter },
            ..before
        })
    } else {
        after == (EntityTabState { main: MessagesView { loading: true, error: None, ..before.main }, ..before })
    }
}

/// `after` is `before` with its information waiting for a load (which of
/// its message views is meant plays no part).
pub open spec fn tab_info_loading(before: EntityTabState, after: EntityTabState, dead_letter: bool) -> bool {
    after == (EntityTabState { info: Loadable::Loading, ..before })
}

/// The tabs after the tab of `path` (opened if it was not) was changed as
/// `step` says; every other tab stays.
pub open spec fn tab_changed(
    before: KeyedList<EntityPath, EntityTabState>,
    after: KeyedList<EntityPath, EntityTabState>,
    path: EntityPath,
    fetch_count: u32,
    step: spec_fn(EntityTabState, EntityTabState, bool) -> bool,
    dead_letter: bool,
) -> bool {
    &&& after.lookup(path.key_view()) matches Some(t2) && match before.lookup(path.key_view()) {
        Some(t) => step(t, t2, dead_letter),
        None => exists|t: EntityTabState| fresh_tab(t, fetch_count) && step(t, t2, dead_letter),
    }
    &&& forall|k: Seq<Seq<char>>| k != path.key_view() ==> after.lookup(k) == before.lookup(k)
}

/// The tab of `path`, taken out of the list, or a new one.
fn take_tab(tabs: &mut KeyedList<EntityPath, EntityTabState>, path: &EntityPath, fetch_count: u32) -> (r: EntityTabState)
    ensures
        match old(tabs).lookup(path.key_view()) {
            Some(t) => r == t,
            None => fresh_tab(r, fetch_count),
        },
        final(tabs).lookup(path.key_view()) is None,
        forall|k: Seq<Seq<char>>| k != path.key_view() ==> final(tabs).lookup(k) == old(tabs).lookup(k),
{
    match tabs.take(path) {
        Some(t) => t,
        None => EntityTabState::new(fetch_count),
    }
}

/// Marks the main or dead-letter view of `path`'s tab as loading.
fn mark_loading(st: &mut UiState, path: &EntityPath, dead_letter: bool)
    ensures
        tab_changed(old(st).tabs, final(st).tabs, *path, old(st).peek_batch, |a, b, d| tab_loading(a, b, d), dead_letter),
        *final(st) == (UiState { tabs: final(st).tabs, ..*old(st) }),
{
    let mut tab = take_tab(&mut st.tabs, path, st.peek_batch);
    let ghost t0 = tab;
    if dead_letter {
        tab.dead_letter.loading = true;
        tab.dead_letter.error = None;
    } else {
        tab.main.loading = true;
        tab.main.error = None;
    }
    assert(tab_loading(t0, tab, dead_letter));
    let key = path.duplicate();
    assert(key.key_view() =~= path.key_view());
    st.tabs.insert(key, tab);
}

/// Marks the information of `path`'s tab as loading.
fn mark_info_loading(st: &mut UiState, path: &EntityPath)
    ensures
        tab_changed(old(st).tabs, final(st).tabs, *path, old(st).peek_batch, |a, b, d| tab_info_loading(a, b, d), false),
        *final(st) == (UiState { tabs: final(st).tabs, ..*old(st) }),
{
    let mut tab = take_tab(&mut st.tabs, path, st.peek_batch);
    let ghost t0 = tab;
    tab.info = Loadable::Loading;
    assert(tab_info_loading(t0, tab, false));
    let key = path.duplicate();
    assert(key.key_view() =~= path.key_view());
    st.tabs.insert(key, tab);
}

pub open spec fn conn_ns(c: ConnectionState) -> Option<ProfileId> {
    match c {
        ConnectionState::Disconnected => None,
        ConnectionState::Connecting { profile_id, .. } => Some(profile_id),
        ConnectionState::Connected { profile_id, .. } => Some(profile_id),
    }
}

pub open spec fn paths_view(s: Seq<EntityPath>) -> Seq<(int, Seq<char>, Seq<char>, Seq<char>)> {
    s.map_values(|p: EntityPath| path_view(p))
}

/// `s` without the entries equal to `x`, in order.
pub open spec fn without<T>(s: Seq<T>, x: T) -> Seq<T>
    decreases s.len(),
{
    if s.len() == 0 {
        s
    } else if s.last() == x {
        without(s.drop_last(), x)
    } else {
        without(s.drop_last(), x).push(s.last())
    }
}

/// `s` with `x` added at the end unless it is already there.
pub open spec fn with_once<T>(s: Seq<T>, x: T) -> Seq<T> {
    if s.contains(x) {
        s
    } else {
        s.push(x)
    }
}

/// A create dialog as it opens for `kind`.
pub open spec fn fresh_create_dialog(d: CreateDialog, kind: CreateKind) -> bool {
    &&& d.kind == kind
    &&& d.name@.len() == 0
    &&& !d.requires_session
    &&& !d.requires_duplicate_detection
    &&& !d.enable_partitioning
    &&& !d.dead_lettering_on_message_expiration
    &&& !d.support_ordering
    &&& d.max_delivery_count == 10
    &&& d.lock_duration_secs == 60
    &&& d.sql_filter@ == "1=1"@
    &&& d.sql_action@.len() == 0
    &&& d.error is None
}

pub open spec fn description_spec(info: EntityInfo) -> EntityDescription {
    match info {
        EntityInfo::Queue(q) => EntityDescription::Queue(q.properties),
        EntityInfo::Topic(t) => EntityDescription::Topic(t.properties),
        EntityInfo::Subscription(s) => EntityDescription::Subscription(s.properties),
        EntityInfo::Rule(r) => EntityDescription::Rule(r.properties),
    }
}

fn same_path(a: &EntityPath, b: &EntityPath) -> (r: bool)
    ensures
        r == (path_view(*a) == path_view(*b)),
{
    match (a, b) {
        (EntityPath::Queue(x), EntityPath::Queue(y)) => *x == *y,
        (EntityPath::Topic(x), EntityPath::Topic(y)) => *x == *y,
        (EntityPath::Subscription { topic: t1, name: n1 }, EntityPath::Subscription { topic: t2, name: n2 }) => {
            *t1 == *t2 && *n1 == *n2
        },
        (
            EntityPath::Rule { topic: t1, subscription: s1, name: n1 },
            EntityPath::Rule { topic: t2, subscription: s2, name: n2 },
        ) => *t1 == *t2 && *s1 == *s2 && *n1 == *n2,
        _ => false,
    }
}

/// Adds `path` to the popped-out entities unless it is already there.
fn add_popped_out(v: &mut Vec<EntityPath>, path: &EntityPath)
    ensures
        paths_view(final(v)@) == with_once(paths_view(old(v)@), path_view(*path)),
{
    let ghost pv = path_view(*path);
    let mut i: usize = 0;
    while i < v.len()
        invariant
            i <= v.len(),
            pv == path_view(*path),
            forall|j: int| 0 <= j < i ==> #[trigger] paths_view(v@)[j] != pv,
        decreases v.len() - i,
    {
        if same_path(&v[i], path) {
            assert(paths_view(v@)[i as int] == pv);
            return;
        }
        i = i + 1;
    }
    let ghost before = paths_view(v@);
    assert(!before.contains(pv));
    v.push(path.duplicate());
    assert(paths_view(v@) =~= before.push(pv));
}

/// Drops every entry equal to `path` from the popped-out entities.
fn remove_popped_out(v: &mut Vec<EntityPath>, path: &EntityPath)
    ensures
        paths_view(final(v)@) == without(paths_view(old(v)@), path_view(*path)),
{
    let ghost all = paths_view(v@);
    let ghost pv = path_view(*path);
    let mut out: Vec<EntityPath> = Vec::new();
    let mut i: usize = 0;
    while i < v.len()
        invariant
            i <= v.len(),
            all == paths_view(v@),
            pv == path_view(*path),
            paths_view(out@) == without(all.take(i as int), pv),
        decreases v.len() - i,
    {
        assert(all.take(i + 1).drop_last() =~= all.take(i as int));
        if !same_path(&v[i], path) {
            let ghost before = paths_view(out@);
            out.push(v[i].duplicate());
            assert(paths_view(out@) =~= before.push(all[i as int]));
        }
        i = i + 1;
    }
    assert(all.take(i as int) =~= all);
    *v = out;
}

/// Carries out `action`. `req` is the identifier for the request it makes,
/// if it makes one. Actions the state here does not own (dialogs that need
/// the profiles or a message, windows, the import file) are handed back in
/// `Err`; for a pop-out the entity is first recorded as popped out, and for
/// an open or dock it is first taken off that list.
pub fn run_action(st: &mut UiState, action: AppAction, req: RequestId) -> (r: Result<Option<UiRequest>, AppAction>)
    ensures
        match action {
            AppAction::LoadQueues => match conn_ns(old(st).conn) {
                Some(ns) => final(st).tree.queues is Loading && *final(st) == (UiState {
                    tree: EntityTree { queues: final(st).tree.queues, ..old(st).tree },
                    ..*old(st)
                }) && r == Ok::<Option<UiRequest>, AppAction>(Some(UiRequest::ListQueues { req, ns })),
                None => *final(st) == *old(st) && r == Ok::<Option<UiRequest>, AppAction>(None),
            },
            AppAction::LoadTopics => match conn_ns(old(st).conn) {
                Some(ns) => final(st).tree.topics is Loading && *final(st) == (UiState {
                    tree: EntityTree { topics: final(st).tree.topics, ..old(st).tree },
                    ..*old(st)
                }) && r == Ok::<Option<UiRequest>, AppAction>(Some(UiRequest::ListTopics { req, ns })),
                None => *final(st) == *old(st) && r == Ok::<Option<UiRequest>, AppAction>(None),
            },
            AppAction::LoadSubscriptions(topic) => match conn_ns(old(st).conn) {
                Some(ns) => {
                    &&& final(st).tree.subscriptions.lookup(seq![topic@]) matches Some(l) && l is Loading
                    &&& forall|k: Seq<Seq<char>>| k != seq![topic@] ==> final(st).tree.subscriptions.lookup(k)
                        == old(st).tree.subscriptions.lookup(k)
                    &&& *final(st) == (UiState {
                        tree: EntityTree { subscriptions: final(st).tree.subscriptions, ..old(st).tree },
                        ..*old(st)
                    })
                    &&& r == Ok::<Option<UiRequest>, AppAction>(
                        Some(UiRequest::ListSubscriptions { req, ns, topic }),
                    )
                },
                None => *final(st) == *old(st) && r == Ok::<Option<UiRequest>, AppAction>(None),
            },
            AppAction::LoadRules(topic, subscription) => match conn_ns(old(st).conn) {
                Some(ns) => {
                    &&& final(st).tree.rules.lookup(seq![topic@, subscription@]) matches Some(l) && l is Loading
                    &&& forall|k: Seq<Seq<char>>| k != seq![topic@, subscription@] ==> final(st).tree.rules.lookup(k)
                        == old(st).tree.rules.lookup(k)
                    &&& *final(st) == (UiState {
                        tree: EntityTree { rules: final(st).tree.rules, ..old(st).tree },
                        ..*old(st)
                    })
                    &&& r == Ok::<Option<UiRequest>, AppAction>(
                        Some(UiRequest::ListRules { req, ns, topic, subscription }),
                    )
                },
                None => *final(st) == *old(st) && r == Ok::<Option<UiRequest>, AppAction>(None),
            },
            AppAction::RefreshTree => final(st).tree.is_empty_tree() && *final(st) == (UiState {
                tree: final(st).tree,
                ..*old(st)
            }) && r == Ok::<Option<UiRequest>, AppAction>(None),
            AppAction::Disconnect => *final(st) == *old(st) && r == Ok::<Option<UiRequest>, AppAction>(
                match conn_ns(old(st).conn) {
                    Some(ns) => Some(UiRequest::Disconnect { ns }),
                    None => None,
                },
            ),
            AppAction::RefreshEntity(path) => match conn_ns(old(st).conn) {
                Some(ns) => {
                    &&& tab_changed(old(st).tabs, final(st).tabs, path, old(st).peek_batch, |a, b, d| tab_info_loading(a, b, d), false)
                    &&& *final(st) == (UiState { tabs: final(st).tabs, ..*old(st) })
                    &&& r == Ok::<Option<UiRequest>, AppAction>(Some(UiRequest::GetEntity { req, ns, path }))
                },
                None => *final(st) == *old(st) && r == Ok::<Option<UiRequest>, AppAction>(None),
            },
            AppAction::UpdateEntity(info) => *final(st) == *old(st) && r == Ok::<Option<UiRequest>, AppAction>(
                match conn_ns(old(st).conn) {
                    Some(ns) => Some(UiRequest::UpdateEntity { req, ns, desc: description_spec(*info) }),
                    None => None,
                },
            ),
            AppAction::PeekMessages { source, from_seq, count } => match conn_ns(old(st).conn) {
                Some(ns) => {
                    &&& tab_changed(old(st).tabs, final(st).tabs, source.entity, old(st).peek_batch, |a, b, d| tab_loading(a, b, d), source.dead_letter)
                    &&& *final(st) == (UiState { tabs: final(st).tabs, ..*old(st) })
                    &&& r == Ok::<Option<UiRequest>, AppAction>(
                        Some(UiRequest::PeekMessages { req, ns, source, from_seq, count }),
                    )
                },
                None => *final(st) == *old(st) && r == Ok::<Option<UiRequest>, AppAction>(None),
            },
            AppAction::ReceiveMessages { source, mode, count } => match conn_ns(old(st).conn) {
                Some(ns) => {
                    &&& tab_changed(old(st).tabs, final(st).tabs, source.entity, old(st).peek_batch, |a, b, d| tab_loading(a, b, d), source.dead_letter)
                    &&& *final(st) == (UiState { tabs: final(st).tabs, ..*old(st) })
                    &&& r == Ok::<Option<UiRequest>, AppAction>(
                        Some(UiRequest::ReceiveMessages { req, ns, source, mode, count }),
                    )
                },
                None => *final(st) == *old(st) && r == Ok::<Option<UiRequest>, AppAction>(None),
            },
            AppAction::Settle { source, lock_token, disposition } => *final(st) == *old(st) && r == Ok::<
                Option<UiRequest>,
                AppAction,
            >(
                match conn_ns(old(st).conn) {
                    Some(ns) => Some(UiRequest::SettleMessage { req, ns, source, lock_token, disposition }),
                    None => None,
                },
            ),
            AppAction::OpenCreateDialog(kind) => {
                &&& final(st).create_dialog matches Some(d) && fresh_create_dialog(d, kind)
                &&& *final(st) == (UiState { create_dialog: final(st).create_dialog, ..*old(st) })
                &&& r == Ok::<Option<UiRequest>, AppAction>(None)
            },
            AppAction::RequestDelete(path) => {
                &&& final(st).confirm matches Some(c) && c.action == PendingConfirm::Delete(path)
                    && c.name@ == path_name(path) && c.typed@.len() == 0 && c.require_typed_name
                    == old(st).confirm_delete_typed_name
                &&& *final(st) == (UiState { confirm: final(st).confirm, ..*old(st) })
                &&& r == Ok::<Option<UiRequest>, AppAction>(None)
            },
            AppAction::PopOutEntity(path) => {
                &&& paths_view(final(st).popped_out@) == with_once(paths_view(old(st).popped_out@), path_view(path))
                &&& *final(st) == (UiState { popped_out: final(st).popped_out, ..*old(st) })
                &&& r == Err::<Option<UiRequest>, AppAction>(AppAction::PopOutEntity(path))
            },
            AppAction::OpenEntity(path) => {
                &&& paths_view(final(st).popped_out@) == without(paths_view(old(st).popped_out@), path_view(path))
                &&& *final(st) == (UiState { popped_out: final(st).popped_out, ..*old(st) })
                &&& r == Err::<Option<UiRequest>, AppAction>(AppAction::OpenEntity(path))
            },
            AppAction::DockEntity(path) => {
                &&& paths_view(final(st).popped_out@) == without(paths_view(old(st).popped_out@), path_view(path))
                &&& *final(st) == (UiState { popped_out: final(st).popped_out, ..*old(st) })
                &&& r == Err::<Option<UiRequest>, AppAction>(AppAction::DockEntity(path))
            },
            _ => *final(st) == *old(st) && r == Err::<Option<UiRequest>, AppAction>(action),
        },
{
    let ns = st.conn.namespace_id();
    match action {
        AppAction::LoadQueues => match ns {
            Some(ns) => {
                st.tree.queues = Loadable::Loading;
                Ok(Some(UiRequest::ListQueues { req, ns }))
            },
            None => Ok(None),
        },
        AppAction::LoadTopics => match ns {
            Some(ns) => {
                st.tree.topics = Loadable::Loading;
                Ok(Some(UiRequest::ListTopics { req, ns }))
            },
            None => Ok(None),
        },
        AppAction::LoadSubscriptions(topic) => match ns {
            Some(ns) => {
                st.tree.subscriptions.insert(topic.clone(), Loadable::Loading);
                Ok(Some(UiRequest::ListSubscriptions { req, ns, topic }))
            },
            None => Ok(None),
        },
        AppAction::LoadRules(topic, subscription) => match ns {
            Some(ns) => {
                st.tree.rules.insert((topic.clone(), subscription.clone()), Loadable::Loading);
                Ok(Some(UiRequest::ListRules { req, ns, topic, subscription }))
            },
            None => Ok(None),
        },
        AppAction::RefreshTree => {
            st.tree.clear();
            Ok(None)
        },
        AppAction::Disconnect => match ns {
            Some(ns) => Ok(Some(UiRequest::Disconnect { ns })),
            None => Ok(None),
        },
        AppAction::RefreshEntity(path) => match ns {
            Some(ns) => {
                mark_info_loading(st, &path);
                Ok(Some(UiRequest::GetEntity { req, ns, path }))
            },
            None => Ok(None),
        },
        AppAction::UpdateEntity(info) => match ns {
            Some(ns) => {
                let desc = description_of(*info);
                Ok(Some(UiRequest::UpdateEntity { req, ns, desc }))
            },
            None => Ok(None),
        },
        AppAction::PeekMessages { source, from_seq, count } => match ns {
            Some(ns) => {
                mark_loading(st, &source.entity, source.dead_letter);
                Ok(Some(UiRequest::PeekMessages { req, ns, source, from_seq, count }))
            },
            None => Ok(None),
        },
        AppAction::ReceiveMessages { source, mode, count } => match ns {
            Some(ns) => {
                mark_loading(st, &source.entity, source.dead_letter);
                Ok(Some(UiRequest::ReceiveMessages { req, ns, source, mode, count }))
            },
            None => Ok(None),
        },
        AppAction::Settle { source, lock_token, disposition } => match ns {
            Some(ns) => Ok(Some(UiRequest::SettleMessage { req, ns, source, lock_token, disposition })),
            None => Ok(None),
        },
        AppAction::OpenCreateDialog(kind) => {
            st.create_dialog = Some(CreateDialog::new(kind));
            Ok(None)
        },
        AppAction::RequestDelete(path) => {
            st.confirm = Some(ConfirmDialog::new(PendingConfirm::Delete(path), st.confirm_delete_typed_name));
            Ok(None)
        },
        AppAction::PopOutEntity(path) => {
            add_popped_out(&mut st.popped_out, &path);
            Err(AppAction::PopOutEntity(path))
        },
        AppAction::OpenEntity(path) => {
            remove_popped_out(&mut st.popped_out, &path);
            Err(AppAction::OpenEntity(path))
        },
        AppAction::DockEntity(path) => {
            remove_popped_out(&mut st.popped_out, &path);
            Err(AppAction::DockEntity(path))
        },
        other => Err(other),
    }
}

} // verus!
