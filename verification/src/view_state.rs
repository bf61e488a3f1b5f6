//! User-interface state that is plain data: lazily loaded lists, tab pages,
//! pending requests, and the message browsing surface.

use vstd::prelude::*;
use crate::body::text_view;
use crate::bridge::{
    BackendError, Disposition, EntityInfo, EntityPath, MessageSource, ReceiveMode, RequestId,
    path_name,
};
use crate::message::OutboundMessage;
use crate::config::{NamespaceProfile, ProfileId};
use crate::model::{
    MessageCountDetails, NamespaceInfo, QueueInfo, RuleInfo, SubscriptionInfo, TopicInfo,
};
use crate::message::SiftMessage;
use crate::text::{
    chars_eq, int_decimal, push_decimal, push_int_decimal, push_str, str_chars, string_from_chars,
};

verus! {

broadcast use vstd::string::group_string_axioms;

/// An in-flight connect request, used to match the response event.
#[derive(Debug)]
pub struct PendingConnect {
    pub req: RequestId,
    pub name: String,
}

/// Lifecycle of lazily fetched data.
#[derive(Clone, Debug)]
pub enum Loadable<T> {
    NotLoaded,
    Loading,
    Loaded(T),
    Failed(String),
}

impl<T> Default for Loadable<T> {
    fn default() -> (r: Loadable<T>)
        ensures
            r is NotLoaded,
    {
        Loadable::NotLoaded
    }
}

/// The count shown after a list's label once it is loaded: " (n)".
pub open spec fn spec_list_suffix<T>(l: Loadable<Vec<T>>) -> Seq<char> {
    match l {
        Loadable::Loaded(items) => " ("@ + crate::text::decimal(items@.len()) + ")"@,
        _ => Seq::empty(),
    }
}

pub fn list_suffix<T>(loadable: &Loadable<Vec<T>>) -> (r: String)
    ensures
        r@ == spec_list_suffix(*loadable),
{
    match loadable {
        Loadable::Loaded(items) => {
            let mut v: Vec<char> = Vec::new();
            push_str(&mut v, " (");
            push_decimal(&mut v, items.len() as u64);
            push_str(&mut v, ")");
            string_from_chars(v.as_slice())
        },
        _ => String::new(),
    }
}

/// Inner page of an entity tab.
#[derive(Clone, Copy, Debug, PartialEq, Eq, Structural)]
pub enum EntityPage {
    Overview,
    Messages,
    DeadLetter,
}

impl Default for EntityPage {
    fn default() -> (r: EntityPage)
        ensures
            r == EntityPage::Overview,
    {
        EntityPage::Overview
    }
}

/// What kind of entity a create dialog is building.
#[derive(Clone, Debug, PartialEq, Eq)]
pub enum CreateKind {
    Queue,
    Topic,
    Subscription { topic: String },
    Rule { topic: String, subscription: String },
}

/// State of one message browsing surface (main queue or dead-letter queue).
#[derive(Debug)]
pub struct MessagesView {
    pub rows: Vec<SiftMessage>,
    pub selected: Option<usize>,
    pub loading: bool,
    pub error: Option<String>,
    /// Messages fetched per peek or receive.
    pub fetch_count: u32,
    /// Body viewer: show hex instead of text.
    pub show_hex: bool,
}

/// Index of the first row holding this lock token, or -1.
pub open spec fn index_of_lock(rows: Seq<SiftMessage>, token: Seq<char>) -> int
    decreases rows.len(),
{
    if rows.len() == 0 {
        -1
    } else if index_of_lock(rows.drop_last(), token) >= 0 {
        index_of_lock(rows.drop_last(), token)
    } else if text_view(rows.last().lock_token) == Some(token) {
        rows.len() - 1
    } else {
        -1
    }
}

/// The selection once row `pos` is gone: cleared if it was that row, moved
/// up by one if it was below it.
pub open spec fn selection_after_removal(selected: Option<usize>, pos: int) -> Option<usize> {
    match selected {
        Some(s) => if s == pos {
            None
        } else if s > pos {
            Some((s - 1) as usize)
        } else {
            Some(s)
        },
        None => None,
    }
}

proof fn lemma_prefix_lock(rows: Seq<SiftMessage>, i: int, token: Seq<char>)
    requires
        0 <= i < rows.len(),
        index_of_lock(rows.take(i), token) == -1,
        text_view(rows[i].lock_token) == Some(token),
    ensures
        index_of_lock(rows, token) == i,
    decreases rows.len(),
{
    if i < rows.len() - 1 {
        assert(rows.drop_last().take(i) =~= rows.take(i));
        lemma_prefix_lock(rows.drop_last(), i, token);
    } else {
        assert(rows.drop_last() =~= rows.take(i));
    }
}

proof fn lemma_index_of_lock(rows: Seq<SiftMessage>, token: Seq<char>)
    ensures
        -1 <= index_of_lock(rows, token) < rows.len(),
    decreases rows.len(),
{
    if rows.len() > 0 {
        lemma_index_of_lock(rows.drop_last(), token);
    }
}

impl MessagesView {
    pub fn new(fetch_count: u32) -> (r: MessagesView)
        ensures
            r.rows@.len() == 0,
            r.selected is None,
            !r.loading,
            r.error is None,
            r.fetch_count == fetch_count,
            !r.show_hex,
    {
        MessagesView {
            rows: Vec::new(),
            selected: None,
            loading: false,
            error: None,
            fetch_count,
            show_hex: false,
        }
    }

    /// Sequence number to continue peeking from: one past the last row's.
    pub fn next_seq(&self) -> (r: Option<i64>)
        requires
            self.rows@.len() > 0 ==> self.rows@.last().sequence_number < i64::MAX,
        ensures
            self.rows@.len() == 0 ==> r is None,
            self.rows@.len() > 0 ==> r == Some((self.rows@.last().sequence_number + 1) as i64),
    {
        if self.rows.len() == 0 {
            None
        } else {
            Some(self.rows[self.rows.len() - 1].sequence_number + 1)
        }
    }

    /// The selected row, if the selection points at one.
    pub fn selected_message(&self) -> (r: Option<&SiftMessage>)
        ensures
            match self.selected {
                Some(i) => if i < self.rows@.len() {
                    r == Some(&self.rows@[i as int])
                } else {
                    r is None
                },
                None => r is None,
            },
    {
        match self.selected {
            Some(i) => if i < self.rows.len() {
                Some(&self.rows[i])
            } else {
                None
            },
            None => None,
        }
    }

    /// Drop the first row holding this lock token (a settled message), and
    /// keep the selection on the message it was on.
    pub fn remove_by_lock_token(&mut self, token: &str)
        ensures
            ({
                let pos = index_of_lock(old(self).rows@, token@);
                if pos < 0 {
                    final(self).rows@ == old(self).rows@ && final(self).selected == old(
                        self,
                    ).selected
                } else {
                    &&& final(self).rows@ == old(self).rows@.remove(pos)
                    &&& final(self).selected == selection_after_removal(old(self).selected, pos)
                }
            }),
            final(self).loading == old(self).loading,
            final(self).fetch_count == old(self).fetch_count,
            final(self).show_hex == old(self).show_hex,
            final(self).error == old(self).error,
    {
        let target = str_chars(token);
        let ghost rows = self.rows@;
        let mut i: usize = 0;
        while i < self.rows.len()
            invariant
                i <= self.rows.len(),
                self.rows@ == rows,
                self.selected == old(self).selected,
                self.rows@ == old(self).rows@,
                self.loading == old(self).loading,
                self.fetch_count == old(self).fetch_count,
                self.show_hex == old(self).show_hex,
                self.error == old(self).error,
                target@ == token@,
                index_of_lock(rows.take(i as int), token@) == -1,
            decreases self.rows.len() - i,
        {
            assert(rows.take(i + 1).drop_last() =~= rows.take(i as int));
            let hit = match &self.rows[i].lock_token {
                Some(t) => {
                    let tc = str_chars(t.as_str());
                    chars_eq(tc.as_slice(), target.as_slice())
                },
                None => false,
            };
            if hit {
                proof {
                    lemma_prefix_lock(rows, i as int, token@);
                }
                self.rows.remove(i);
                match self.selected {
                    Some(s) => {
                        if s == i {
                            self.selected = None;
                        } else if s > i {
                            self.selected = Some(s - 1);
                        }
                    },
                    None => {},
                }
                return;
            }
            i = i + 1;
        }
        assert(rows.take(i as int) =~= rows);
    }
}

impl MessagesView {
    /// The position of the first row holding this lock token.
    pub fn find_lock(&self, token: &str) -> (r: Option<usize>)
        ensures
            match r {
                Some(p) => p == index_of_lock(self.rows@, token@) && p < self.rows@.len(),
                None => index_of_lock(self.rows@, token@) == -1,
            },
    {
        let target = str_chars(token);
        let ghost rows = self.rows@;
        let mut i: usize = 0;
        while i < self.rows.len()
            invariant
                i <= self.rows.len(),
                self.rows@ == rows,
                target@ == token@,
                index_of_lock(rows.take(i as int), token@) == -1,
            decreases self.rows.len() - i,
        {
            assert(rows.take(i + 1).drop_last() =~= rows.take(i as int));
            let hit = match &self.rows[i].lock_token {
                Some(t) => {
                    let tc = str_chars(t.as_str());
                    chars_eq(tc.as_slice(), target.as_slice())
                },
                None => false,
            };
            if hit {
                proof {
                    lemma_prefix_lock(rows, i as int, token@);
                }
                return Some(i);
            }
            i = i + 1;
        }
        assert(rows.take(i as int) =~= rows);
        None
    }

    /// Forget the lock on the first row holding this token (an abandoned
    /// message stays in the list, no longer locked by us).
    pub fn forget_lock(&mut self, token: &str)
        ensures
            ({
                let pos = index_of_lock(old(self).rows@, token@);
                if pos < 0 {
                    final(self).rows@ == old(self).rows@
                } else {
                    final(self).rows@ == old(self).rows@.update(
                        pos,
                        SiftMessage { lock_token: None, ..old(self).rows@[pos] },
                    )
                }
            }),
            final(self).selected == old(self).selected,
            final(self).loading == old(self).loading,
            final(self).fetch_count == old(self).fetch_count,
            final(self).show_hex == old(self).show_hex,
            final(self).error == old(self).error,
    {
        match self.find_lock(token) {
            Some(p) => {
                let ghost rows = self.rows@;
                let mut m = self.rows.remove(p);
                m.lock_token = None;
                self.rows.insert(p, m);
                assert(self.rows@ =~= rows.update(p as int, SiftMessage { lock_token: None, ..rows[p as int] }));
            },
            None => {},
        }
    }

    /// Take in a page of messages (or the failure to get one): a page read
    /// from a sequence number continues the list, any other replaces it and
    /// clears the selection.
    pub fn apply_messages(&mut self, from_seq: Option<i64>, result: Result<Vec<SiftMessage>, BackendError>)
        ensures
            !final(self).loading,
            final(self).fetch_count == old(self).fetch_count,
            final(self).show_hex == old(self).show_hex,
            match result {
                Ok(page) => {
                    &&& final(self).error is None
                    &&& from_seq is Some ==> final(self).rows@ == old(self).rows@ + page@
                        && final(self).selected == old(self).selected
                    &&& from_seq is None ==> final(self).rows@ == page@ && final(self).selected is None
                },
                Err(e) => {
                    &&& final(self).error matches Some(m) && m@ == e.message@
                    &&& final(self).rows@ == old(self).rows@
                    &&& final(self).selected == old(self).selected
                },
            },
    {
        self.loading = false;
        match result {
            Ok(page) => {
                self.error = None;
                match from_seq {
                    Some(_) => {
                        let mut page = page;
                        self.rows.append(&mut page);
                    },
                    None => {
                        self.rows = page;
                        self.selected = None;
                    },
                }
            },
            Err(e) => {
                self.error = Some(e.message);
            },
        }
    }
}

impl MessagesView {
    /// Take in a settled message: an abandoned one stays, no longer locked
    /// by us; any other leaves the list.
    pub fn apply_settled(&mut self, disposition: &Disposition, token: &str)
        ensures
            ({
                let pos = index_of_lock(old(self).rows@, token@);
                if pos < 0 {
                    final(self).rows@ == old(self).rows@ && final(self).selected == old(self).selected
                } else if *disposition is Abandon {
                    &&& final(self).rows@ == old(self).rows@.update(
                        pos,
                        SiftMessage { lock_token: None, ..old(self).rows@[pos] },
                    )
                    &&& final(self).selected == old(self).selected
                } else {
                    &&& final(self).rows@ == old(self).rows@.remove(pos)
                    &&& final(self).selected == selection_after_removal(old(self).selected, pos)
                }
            }),
            final(self).loading == old(self).loading,
            final(self).error == old(self).error,
    {
        match disposition {
            Disposition::Abandon => self.forget_lock(token),
            _ => self.remove_by_lock_token(token),
        }
    }
}

/// What widgets ask the application to do; carried out after drawing, so
/// widgets never change application state in the middle of a frame.
#[derive(Debug)]
pub enum AppAction {
    OpenConnectDialog,
    Disconnect,
    ImportLegacyProfiles,
    LoadQueues,
    LoadTopics,
    LoadSubscriptions(String),
    LoadRules(String, String),
    RefreshTree,
    OpenEntity(EntityPath),
    RefreshEntity(EntityPath),
    /// Apply a modified description (such as a status change) to the service.
    UpdateEntity(Box<EntityInfo>),
    OpenCreateDialog(CreateKind),
    RequestDelete(EntityPath),
    PeekMessages { source: MessageSource, from_seq: Option<i64>, count: u32 },
    ReceiveMessages { source: MessageSource, mode: ReceiveMode, count: u32 },
    Settle { source: MessageSource, lock_token: String, disposition: Disposition },
    OpenSendDialog { target: EntityPath, prefill: Option<Box<OutboundMessage>> },
    /// Detach an entity from the dock into its own window.
    PopOutEntity(EntityPath),
    /// Return a popped-out entity to the dock.
    DockEntity(EntityPath),
}

/// A list's state once its load came back.
pub fn load_result<T>(result: Result<T, BackendError>) -> (r: Loadable<T>)
    ensures
        match result {
            Ok(v) => r == Loadable::Loaded(v),
            Err(e) => r matches Loadable::Failed(m) && m@ == e.message@,
        },
{
    match result {
        Ok(v) => Loadable::Loaded(v),
        Err(e) => Loadable::Failed(e.message),
    }
}

/// Removing a settled row keeps the selection on the same message, unless
/// that message was the one removed.
pub proof fn law_removal_keeps_selected_message(rows: Seq<SiftMessage>, pos: int, s: usize)
    requires
        0 <= pos < rows.len(),
        s < rows.len(),
        s != pos,
    ensures
        selection_after_removal(Some(s), pos) matches Some(t) && t < rows.remove(pos).len()
            && rows.remove(pos)[t as int] == rows[s as int],
{
}

/// A tab of the dock.
#[derive(Clone, Debug, PartialEq, Eq)]
pub enum TabId {
    Welcome,
    Dashboard,
    Entity(EntityPath),
}

pub open spec fn tab_title(tab: TabId) -> Seq<char> {
    match tab {
        TabId::Welcome => "Welcome"@,
        TabId::Dashboard => "Dashboard"@,
        TabId::Entity(path) => path_name(path),
    }
}

impl TabId {
    /// The tab's title: an entity tab is titled by the entity's name.
    pub fn title(&self) -> (r: String)
        ensures
            r@ == tab_title(*self),
    {
        match self {
            TabId::Welcome => String::from_str("Welcome"),
            TabId::Dashboard => String::from_str("Dashboard"),
            TabId::Entity(path) => String::from_str(path.name()),
        }
    }
}

// ---- connection and entity tree -----------------------------------------------------

/// Where the namespace connection stands.
#[derive(Clone, Debug)]
pub enum ConnectionState {
    Disconnected,
    Connecting { profile_id: ProfileId, name: String },
    Connected { profile_id: ProfileId, name: String, info: NamespaceInfo },
}

impl Default for ConnectionState {
    fn default() -> (r: ConnectionState)
        ensures
            r is Disconnected,
    {
        ConnectionState::Disconnected
    }
}

impl ConnectionState {
    /// The profile being connected or connected to.
    pub fn namespace_id(&self) -> (r: Option<ProfileId>)
        ensures
            match *self {
                ConnectionState::Disconnected => r is None,
                ConnectionState::Connecting { profile_id, .. } => r == Some(profile_id),
                ConnectionState::Connected { profile_id, .. } => r == Some(profile_id),
            },
    {
        match self {
            ConnectionState::Disconnected => None,
            ConnectionState::Connecting { profile_id, .. } => Some(*profile_id),
            ConnectionState::Connected { profile_id, .. } => Some(*profile_id),
        }
    }
}

/// A key of the entity tree's per-parent lists, compared by its text.
pub trait TreeKey {
    spec fn key_view(&self) -> Seq<Seq<char>>;

    fn same_key(&self, other: &Self) -> (r: bool)
        ensures
            r == (self.key_view() == other.key_view());
}

impl TreeKey for String {
    open spec fn key_view(&self) -> Seq<Seq<char>> {
        seq![self@]
    }

    fn same_key(&self, other: &Self) -> (r: bool) {
        let r = *self == *other;
        proof {
            if !r {
                assert(self.key_view()[0] != other.key_view()[0]);
            }
        }
        r
    }
}

impl TreeKey for (String, String) {
    open spec fn key_view(&self) -> Seq<Seq<char>> {
        seq![self.0@, self.1@]
    }

    fn same_key(&self, other: &Self) -> (r: bool) {
        let r = self.0 == other.0 && self.1 == other.1;
        proof {
            if r {
                assert(self.key_view() =~= other.key_view());
            } else if self.0@ != other.0@ {
                assert(self.key_view()[0] != other.key_view()[0]);
            } else {
                assert(self.key_view()[1] != other.key_view()[1]);
            }
        }
        r
    }
}

/// The value of the last entry under key `k`.
pub open spec fn lookup_in<K: TreeKey, V>(s: Seq<(K, V)>, k: Seq<Seq<char>>) -> Option<V>
    decreases s.len(),
{
    if s.len() == 0 {
        None
    } else if s.last().0.key_view() == k {
        Some(s.last().1)
    } else {
        lookup_in(s.drop_last(), k)
    }
}

proof fn lemma_lookup_remove<K: TreeKey, V>(s: Seq<(K, V)>, i: int, k: Seq<Seq<char>>)
    requires
        0 <= i < s.len(),
        s[i].0.key_view() != k,
    ensures
        lookup_in(s.remove(i), k) == lookup_in(s, k),
    decreases s.len(),
{
    if i == s.len() - 1 {
        assert(s.remove(i) =~= s.drop_last());
    } else {
        assert(s.remove(i).last() == s.last());
        assert(s.remove(i).drop_last() =~= s.drop_last().remove(i));
        lemma_lookup_remove(s.drop_last(), i, k);
    }
}

proof fn lemma_lookup_absent<K: TreeKey, V>(s: Seq<(K, V)>, k: Seq<Seq<char>>)
    requires
        forall|j: int| 0 <= j < s.len() ==> (#[trigger] s[j]).0.key_view() != k,
    ensures
        lookup_in(s, k) is None,
    decreases s.len(),
{
    if s.len() > 0 {
        assert(s.last() == s[s.len() - 1]);
        lemma_lookup_absent(s.drop_last(), k);
    }
}

/// A map from tree keys to values, as the entity tree keeps per-parent lists.
#[derive(Debug)]
pub struct KeyedList<K, V> {
    entries: Vec<(K, V)>,
}

impl<K: TreeKey, V> KeyedList<K, V> {
    /// The value under a key, if any.
    pub closed spec fn lookup(&self, k: Seq<Seq<char>>) -> Option<V> {
        lookup_in(self.entries@, k)
    }

    pub fn new() -> (r: KeyedList<K, V>)
        ensures
            forall|k: Seq<Seq<char>>| r.lookup(k) is None,
    {
        KeyedList { entries: Vec::new() }
    }

    /// The value under `key`.
    pub fn get(&self, key: &K) -> (r: Option<&V>)
        ensures
            match r {
                Some(v) => self.lookup(key.key_view()) == Some(*v),
                None => self.lookup(key.key_view()) is None,
            },
    {
        let mut i = self.entries.len();
        assert(self.entries@.take(i as int) =~= self.entries@);
        while i > 0
            invariant
                i <= self.entries.len(),
                lookup_in(self.entries@, key.key_view()) == lookup_in(self.entries@.take(i as int), key.key_view()),
            decreases i,
        {
            let ghost t = self.entries@.take(i as int);
            assert(t.drop_last() =~= self.entries@.take(i - 1));
            if self.entries[i - 1].0.same_key(key) {
                return Some(&self.entries[i - 1].1);
            }
            i = i - 1;
        }
        None
    }

    /// Drops the value under `key`; every other key keeps its value.
    pub fn remove(&mut self, key: &K)
        ensures
            final(self).lookup(key.key_view()) is None,
            forall|k: Seq<Seq<char>>| k != key.key_view() ==> final(self).lookup(k) == old(self).lookup(k),
    {
        let ghost k0 = key.key_view();
        let mut i: usize = 0;
        while i < self.entries.len()
            invariant
                i <= self.entries.len(),
                forall|j: int| 0 <= j < i ==> (#[trigger] self.entries@[j]).0.key_view() != k0,
                forall|k: Seq<Seq<char>>| k != k0 ==> lookup_in(self.entries@, k) == lookup_in(old(self).entries@, k),
                k0 == key.key_view(),
            decreases self.entries.len() - i, self.entries.len(),
        {
            if self.entries[i].0.same_key(key) {
                let ghost before = self.entries@;
                proof {
                    assert forall|k: Seq<Seq<char>>| k != k0 implies lookup_in(before.remove(i as int), k) == lookup_in(before, k) by {
                        lemma_lookup_remove(before, i as int, k);
                    }
                }
                let _ = self.entries.remove(i);
                assert(self.entries@ =~= before.remove(i as int));
            } else {
                i = i + 1;
            }
        }
        proof {
            lemma_lookup_absent(self.entries@, k0);
        }
    }

    /// Takes out the value under `key`; every other key keeps its value.
    pub fn take(&mut self, key: &K) -> (r: Option<V>)
        ensures
            r == old(self).lookup(key.key_view()),
            final(self).lookup(key.key_view()) is None,
            forall|k: Seq<Seq<char>>| k != key.key_view() ==> final(self).lookup(k) == old(self).lookup(k),
    {
        let ghost k0 = key.key_view();
        let mut i = self.entries.len();
        assert(self.entries@.take(i as int) =~= self.entries@);
        while i > 0
            invariant
                i <= self.entries.len(),
                self.entries@ == old(self).entries@,
                k0 == key.key_view(),
                lookup_in(self.entries@, k0) == lookup_in(self.entries@.take(i as int), k0),
            decreases i,
        {
            let ghost t = self.entries@.take(i as int);
            assert(t.drop_last() =~= self.entries@.take(i - 1));
            if self.entries[i - 1].0.same_key(key) {
                let ghost before = self.entries@;
                proof {
                    assert forall|k: Seq<Seq<char>>| k != k0 implies lookup_in(before.remove(i - 1), k)
                        == lookup_in(before, k) by {
                        lemma_lookup_remove(before, i - 1, k);
                    }
                }
                let (_, v) = self.entries.remove(i - 1);
                assert(self.entries@ =~= before.remove(i - 1));
                self.remove(key);
                return Some(v);
            }
            i = i - 1;
        }
        None
    }

    /// Puts `value` under `key`, replacing what was there; every other key
    /// keeps its value.
    pub fn insert(&mut self, key: K, value: V)
        ensures
            final(self).lookup(key.key_view()) == Some(value),
            forall|k: Seq<Seq<char>>| k != key.key_view() ==> final(self).lookup(k) == old(self).lookup(k),
    {
        self.remove(&key);
        let ghost mid = self.entries@;
        self.entries.push((key, value));
        assert(self.entries@.drop_last() =~= mid);
    }
}

/// The entity tree of the connected namespace: data only; the tree panel
/// shows what is here and asks for what is missing.
#[derive(Debug)]
pub struct EntityTree {
    pub queues: Loadable<Vec<QueueInfo>>,
    pub topics: Loadable<Vec<TopicInfo>>,
    /// Keyed by topic path.
    pub subscriptions: KeyedList<String, Loadable<Vec<SubscriptionInfo>>>,
    /// Keyed by (topic, subscription).
    pub rules: KeyedList<(String, String), Loadable<Vec<RuleInfo>>>,
}

impl EntityTree {
    pub open spec fn is_empty_tree(&self) -> bool {
        &&& self.queues is NotLoaded
        &&& self.topics is NotLoaded
        &&& forall|k: Seq<Seq<char>>| self.subscriptions.lookup(k) is None
        &&& forall|k: Seq<Seq<char>>| self.rules.lookup(k) is None
    }

    pub fn new() -> (r: EntityTree)
        ensures
            r.is_empty_tree(),
    {
        EntityTree {
            queues: Loadable::NotLoaded,
            topics: Loadable::NotLoaded,
            subscriptions: KeyedList::new(),
            rules: KeyedList::new(),
        }
    }

    /// Forget everything (on disconnect or refresh-all).
    pub fn clear(&mut self)
        ensures
            final(self).is_empty_tree(),
    {
        *self = EntityTree::new();
    }

    /// Drop the cached list that holds `path`, so that it is loaded again;
    /// every other list stays.
    pub fn invalidate_list_for(&mut self, path: &EntityPath)
        ensures
            match *path {
                EntityPath::Queue(_) => final(self).queues is NotLoaded && final(self).topics == old(self).topics
                    && final(self).subscriptions == old(self).subscriptions && final(self).rules == old(self).rules,
                EntityPath::Topic(_) => final(self).topics is NotLoaded && final(self).queues == old(self).queues
                    && final(self).subscriptions == old(self).subscriptions && final(self).rules == old(self).rules,
                EntityPath::Subscription { topic, .. } => {
                    &&& final(self).subscriptions.lookup(seq![topic@]) is None
                    &&& forall|k: Seq<Seq<char>>| k != seq![topic@] ==> final(self).subscriptions.lookup(k)
                        == old(self).subscriptions.lookup(k)
                    &&& final(self).queues == old(self).queues && final(self).topics == old(self).topics
                    &&& final(self).rules == old(self).rules
                },
                EntityPath::Rule { topic, subscription, .. } => {
                    &&& final(self).rules.lookup(seq![topic@, subscription@]) is None
                    &&& forall|k: Seq<Seq<char>>| k != seq![topic@, subscription@] ==> final(self).rules.lookup(k)
                        == old(self).rules.lookup(k)
                    &&& final(self).queues == old(self).queues && final(self).topics == old(self).topics
                    &&& final(self).subscriptions == old(self).subscriptions
                },
            },
    {
        match path {
            EntityPath::Queue(_) => self.queues = Loadable::NotLoaded,
            EntityPath::Topic(_) => self.topics = Loadable::NotLoaded,
            EntityPath::Subscription { topic, .. } => {
                let key = topic.clone();
                self.subscriptions.remove(&key);
            },
            EntityPath::Rule { topic, subscription, .. } => {
                let key = (topic.clone(), subscription.clone());
                self.rules.remove(&key);
            },
        }
    }
}

/// Everything an open entity tab owns.
#[derive(Debug)]
pub struct EntityTabState {
    pub info: Loadable<EntityInfo>,
    pub page: EntityPage,
    pub main: MessagesView,
    pub dead_letter: MessagesView,
}

impl EntityTabState {
    pub fn new(fetch_count: u32) -> (r: EntityTabState)
        ensures
            r.info is NotLoaded,
            r.page == EntityPage::Overview,
            r.main.rows@.len() == 0 && r.main.selected is None && r.main.fetch_count == fetch_count,
            !r.main.loading && r.main.error is None && !r.main.show_hex,
            r.dead_letter.rows@.len() == 0 && r.dead_letter.selected is None
                && r.dead_letter.fetch_count == fetch_count,
            !r.dead_letter.loading && r.dead_letter.error is None && !r.dead_letter.show_hex,
    {
        EntityTabState {
            info: Loadable::NotLoaded,
            page: EntityPage::Overview,
            main: MessagesView::new(fetch_count),
            dead_letter: MessagesView::new(fetch_count),
        }
    }

    /// The message surface of the main queue or of its dead-letter queue.
    pub fn view_mut(&mut self, dead_letter: bool) -> (r: &mut MessagesView)
        ensures
            dead_letter ==> *r == old(self).dead_letter,
            !dead_letter ==> *r == old(self).main,
            dead_letter ==> *final(self) == (EntityTabState { dead_letter: *final(r), ..*old(self) }),
            !dead_letter ==> *final(self) == (EntityTabState { main: *final(r), ..*old(self) }),
    {
        if dead_letter {
            &mut self.dead_letter
        } else {
            &mut self.main
        }
    }
}

/// A tree row's text: `icon name`, followed by the active, dead-letter and
/// scheduled counts in brackets when they are known.
pub open spec fn spec_entity_label(icon: Seq<char>, name: Seq<char>, counts: Option<MessageCountDetails>) -> Seq<char> {
    match counts {
        Some(c) => icon + " "@ + name + " ("@ + int_decimal(c.active as int) + ", "@ + int_decimal(
            c.dead_letter as int,
        ) + ", "@ + int_decimal(c.scheduled as int) + ")"@,
        None => icon + " "@ + name,
    }
}

pub fn entity_label(icon: &str, name: &str, counts: Option<&MessageCountDetails>) -> (r: String)
    ensures
        r@ == spec_entity_label(
            icon@,
            name@,
            match counts {
                Some(c) => Some(*c),
                None => None,
            },
        ),
{
    let mut v: Vec<char> = Vec::new();
    push_str(&mut v, icon);
    push_str(&mut v, " ");
    push_str(&mut v, name);
    match counts {
        Some(c) => {
            push_str(&mut v, " (");
            push_int_decimal(&mut v, c.active);
            push_str(&mut v, ", ");
            push_int_decimal(&mut v, c.dead_letter);
            push_str(&mut v, ", ");
            push_int_decimal(&mut v, c.scheduled);
            push_str(&mut v, ")");
        },
        None => {},
    }
    let r = string_from_chars(v.as_slice());
    proof {
        match counts {
            Some(c) => {
                assert(r@ =~= spec_entity_label(icon@, name@, Some(*c)));
            },
            None => {
                assert(r@ =~= spec_entity_label(icon@, name@, None));
            },
        }
    }
    r
}

/// Whether the dead-letter count calls for a warning tint.
pub fn label_warns(counts: Option<&MessageCountDetails>) -> (r: bool)
    ensures
        r == (counts matches Some(c) && c.dead_letter > 0),
{
    match counts {
        Some(c) => c.dead_letter > 0,
        None => false,
    }
}

// ---- connecting ---------------------------------------------------------------------

/// The state a connect request starts: connecting to the profile, with the
/// request remembered so that its answer can be recognized.
pub fn begin_connect(req: RequestId, profile: &NamespaceProfile) -> (r: (ConnectionState, PendingConnect))
    ensures
        r.0 matches ConnectionState::Connecting { profile_id, name } && profile_id == profile.id
            && name@ == profile.name@,
        r.1.req == req && r.1.name@ == profile.name@,
{
    (
        ConnectionState::Connecting { profile_id: profile.id, name: profile.name.clone() },
        PendingConnect { req, name: profile.name.clone() },
    )
}

/// What the answer to a connect request did.
#[derive(Debug)]
pub enum ConnectOutcome {
    /// The answer is not to the request in flight; nothing changed.
    Stale,
    /// Connected: the message to show.
    Connected(String),
    /// Not connected: the error's message.
    Failed(String),
}

/// Take in the answer to a connect request for namespace `ns`.
pub fn finish_connect(
    conn: &mut ConnectionState,
    pending: &mut Option<PendingConnect>,
    req: RequestId,
    ns: ProfileId,
    result: Result<NamespaceInfo, BackendError>,
) -> (r: ConnectOutcome)
    ensures
        match *old(pending) {
            Some(p) if p.req == req => {
                &&& *final(pending) is None
                &&& match result {
                    Ok(info) => {
                        &&& *final(conn) matches ConnectionState::Connected { profile_id, name, info: i }
                            && profile_id == ns && name@ == p.name@ && i == info
                        &&& r matches ConnectOutcome::Connected(m) && m@ == "Connected to "@ + info.name@
                    },
                    Err(e) => {
                        &&& *final(conn) is Disconnected
                        &&& r matches ConnectOutcome::Failed(m) && m@ == e.message@
                    },
                }
            },
            _ => {
                &&& r is Stale
                &&& *final(pending) == *old(pending)
                &&& *final(conn) == *old(conn)
            },
        },
{
    let matches_req = match pending {
        Some(p) => p.req == req,
        None => false,
    };
    if !matches_req {
        return ConnectOutcome::Stale;
    }
    let p = pending.take().unwrap();
    match result {
        Ok(info) => {
            let mut m: Vec<char> = Vec::new();
            push_str(&mut m, "Connected to ");
            push_str(&mut m, info.name.as_str());
            let message = string_from_chars(m.as_slice());
            *conn = ConnectionState::Connected { profile_id: ns, name: p.name, info };
            ConnectOutcome::Connected(message)
        },
        Err(e) => {
            *conn = ConnectionState::Disconnected;
            ConnectOutcome::Failed(e.message)
        },
    }
}

/// Take in the news that namespace `ns` was disconnected: if it is the
/// current one, the state becomes disconnected and `true` is returned.
pub fn finish_disconnect(conn: &mut ConnectionState, ns: ProfileId) -> (r: bool)
    ensures
        r == (match *old(conn) {
            ConnectionState::Disconnected => false,
            ConnectionState::Connecting { profile_id, .. } => profile_id == ns,
            ConnectionState::Connected { profile_id, .. } => profile_id == ns,
        }),
        r ==> *final(conn) is Disconnected,
        !r ==> *final(conn) == *old(conn),
{
    let current = conn.namespace_id();
    let hit = match current {
        Some(id) => id == ns,
        None => false,
    };
    if hit {
        *conn = ConnectionState::Disconnected;
    }
    hit
}

/// The suggested file name of a namespace export.
pub fn export_file_name(conn: &ConnectionState) -> (r: String)
    ensures
        match *conn {
            ConnectionState::Connected { info, .. } => r@ == info.name@ + "-export.json"@,
            _ => r@ == "sift-export.json"@,
        },
{
    match conn {
        ConnectionState::Connected { info, .. } => {
            let mut v = str_chars(info.name.as_str());
            push_str(&mut v, "-export.json");
            string_from_chars(v.as_slice())
        },
        _ => "sift-export.json".to_owned(),
    }
}

} // verus!
