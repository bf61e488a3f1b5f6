//! Application configuration: UI preferences and saved namespace profiles.
//!
//! Profiles never hold secret material: connection strings and keys live in
//! a [`crate::secrets::SecretStore`], keyed by profile id. Reading and writing
//! the TOML file is the application's part; this module holds the model and
//! the profile operations.

use vstd::prelude::*;
use crate::body::text_view;
use crate::connection::{Endpoint, TransportType};

verus! {

broadcast use vstd::string::group_string_axioms;

/// A profile's identifier: the 128 bits of a UUID.
#[derive(Clone, Copy, Debug, PartialEq, Eq, Hash, Structural)]
pub struct ProfileId {
    pub value: u128,
}

/// The version 4 and RFC 4122 variant bits that every random UUID carries.
pub open spec fn is_v4_bits(v: u128) -> bool {
    v & 0xF000_C000_0000_0000_0000u128 == 0x4000_8000_0000_0000_0000u128
}

/// `uuid::Uuid::new_v4().as_u128()`: a fresh random (version 4) UUID. The
/// random bits are not stated; the version and variant bits are always set
/// (the value is masked and then or-ed with `0x4000_8000_0000_0000_0000`).
#[verifier::external_body]
fn random_uuid_bits() -> (r: u128)
    ensures
        is_v4_bits(r),
{
    uuid::Uuid::new_v4().as_u128()
}

impl ProfileId {
    /// A fresh random identifier: a version 4 UUID.
    pub fn new_v4() -> (r: ProfileId)
        ensures
            is_v4_bits(r.value),
    {
        ProfileId { value: random_uuid_bits() }
    }

    /// The all-zero identifier.
    pub fn nil() -> (r: ProfileId)
        ensures
            r.value == 0,
    {
        ProfileId { value: 0 }
    }
}

/// How the user authenticates a namespace profile.
#[derive(Clone, Debug)]
pub enum AuthMethod {
    /// SAS connection string, kept in the secret store.
    ConnectionString,
    /// Microsoft Entra ID.
    AzureAd { tenant_id: Option<String> },
}

pub enum AuthView {
    ConnectionString,
    AzureAd(Option<Seq<char>>),
}

pub open spec fn auth_view(a: AuthMethod) -> AuthView {
    match a {
        AuthMethod::ConnectionString => AuthView::ConnectionString,
        AuthMethod::AzureAd { tenant_id } => AuthView::AzureAd(text_view(tenant_id)),
    }
}

impl AuthMethod {
    /// A copy with the same contents.
    pub fn duplicate(&self) -> (r: AuthMethod)
        ensures
            auth_view(r) == auth_view(*self),
    {
        match self {
            AuthMethod::ConnectionString => AuthMethod::ConnectionString,
            AuthMethod::AzureAd { tenant_id } => AuthMethod::AzureAd {
                tenant_id: crate::message::clone_opt(tenant_id),
            },
        }
    }
}

/// A saved namespace connection, minus its secret material.
#[derive(Clone, Debug)]
pub struct NamespaceProfile {
    pub id: ProfileId,
    pub name: String,
    /// Endpoint for display; the authoritative one comes from the stored
    /// connection string at connect time.
    pub endpoint: Option<Endpoint>,
    pub transport: TransportType,
    pub auth: AuthMethod,
}

/// A profile as plain values.
pub struct ProfileView {
    pub id: u128,
    pub name: Seq<char>,
    pub endpoint: Option<(Seq<char>, Seq<char>, Option<Seq<char>>, Option<u16>)>,
    pub transport: TransportType,
    pub auth: AuthView,
}

impl View for NamespaceProfile {
    type V = ProfileView;

    open spec fn view(&self) -> ProfileView {
        ProfileView {
            id: self.id.value,
            name: self.name@,
            endpoint: crate::connection::endpoint_view(self.endpoint),
            transport: self.transport,
            auth: auth_view(self.auth),
        }
    }
}

impl NamespaceProfile {
    /// A new connection-string profile with a fresh random id.
    pub fn new_connection_string(name: String) -> (r: NamespaceProfile)
        ensures
            r@.name == name@,
            r@.endpoint is None,
            r@.transport == TransportType::AmqpTcp,
            r@.auth == AuthView::ConnectionString,
    {
        NamespaceProfile {
            id: ProfileId::new_v4(),
            name,
            endpoint: None,
            transport: TransportType::default(),
            auth: AuthMethod::ConnectionString,
        }
    }

    /// A copy with the same contents.
    pub fn duplicate(&self) -> (r: NamespaceProfile)
        ensures
            r@ == self@,
    {
        NamespaceProfile {
            id: self.id,
            name: self.name.clone(),
            endpoint: match &self.endpoint {
                Some(e) => Some(e.duplicate()),
                None => None,
            },
            transport: self.transport,
            auth: self.auth.duplicate(),
        }
    }
}

/// Colour theme preference.
#[derive(Clone, Copy, Debug, PartialEq, Eq, Structural)]
pub enum ThemePreference {
    System,
    Light,
    Dark,
}

impl Default for ThemePreference {
    fn default() -> (r: ThemePreference)
        ensures
            r == ThemePreference::System,
    {
        ThemePreference::System
    }
}

/// UI preferences.
#[derive(Clone, Copy, Debug, PartialEq, Eq, Structural)]
pub struct UiConfig {
    pub theme: ThemePreference,
    /// Messages fetched per peek page.
    pub peek_batch: u32,
    /// Require typing the entity name to confirm deletes and purges.
    pub confirm_delete_typed_name: bool,
}

impl Default for UiConfig {
    fn default() -> (r: UiConfig)
        ensures
            r == (UiConfig {
                theme: ThemePreference::System,
                peek_batch: 100,
                confirm_delete_typed_name: true,
            }),
    {
        UiConfig { theme: ThemePreference::System, peek_batch: 100, confirm_delete_typed_name: true }
    }
}

/// Retry policy for operations against the service.
#[derive(Clone, Copy, Debug, PartialEq, Eq, Structural)]
pub struct RetryConfig {
    pub count: u32,
    pub backoff_ms: u64,
}

impl Default for RetryConfig {
    fn default() -> (r: RetryConfig)
        ensures
            r == (RetryConfig { count: 3, backoff_ms: 500 }),
    {
        RetryConfig { count: 3, backoff_ms: 500 }
    }
}

/// The configuration file's root.
#[derive(Clone, Debug)]
pub struct AppConfig {
    pub schema_version: u32,
    pub ui: UiConfig,
    pub retry: RetryConfig,
    pub profiles: Vec<NamespaceProfile>,
}

pub open spec fn profiles_view(s: Seq<NamespaceProfile>) -> Seq<ProfileView> {
    s.map_values(|p: NamespaceProfile| p@)
}

/// A configuration as plain values.
pub struct ConfigView {
    pub schema_version: u32,
    pub ui: UiConfig,
    pub retry: RetryConfig,
    pub profiles: Seq<ProfileView>,
}

impl View for AppConfig {
    type V = ConfigView;

    open spec fn view(&self) -> ConfigView {
        ConfigView {
            schema_version: self.schema_version,
            ui: self.ui,
            retry: self.retry,
            profiles: profiles_view(self.profiles@),
        }
    }
}

impl Default for AppConfig {
    fn default() -> (r: AppConfig)
        ensures
            r@.schema_version == 1,
            r@.ui == (UiConfig {
                theme: ThemePreference::System,
                peek_batch: 100,
                confirm_delete_typed_name: true,
            }),
            r@.retry == (RetryConfig { count: 3, backoff_ms: 500 }),
            r@.profiles.len() == 0,
    {
        AppConfig {
            schema_version: 1,
            ui: UiConfig::default(),
            retry: RetryConfig::default(),
            profiles: Vec::new(),
        }
    }
}

// ---- profile operations -----------------------------------------------------------------

/// Index of the first profile with this id, or -1.
pub open spec fn index_of_id(s: Seq<ProfileView>, id: u128) -> int
    decreases s.len(),
{
    if s.len() == 0 {
        -1
    } else if index_of_id(s.drop_last(), id) >= 0 {
        index_of_id(s.drop_last(), id)
    } else if s.last().id == id {
        s.len() - 1
    } else {
        -1
    }
}

/// The profile with this id, if any.
pub open spec fn lookup(s: Seq<ProfileView>, id: u128) -> Option<ProfileView> {
    let i = index_of_id(s, id);
    if i >= 0 {
        Some(s[i])
    } else {
        None
    }
}

/// Insert-or-replace by id: the first profile with the same id is replaced
/// in place; otherwise the profile is appended.
pub open spec fn upserted(s: Seq<ProfileView>, p: ProfileView) -> Seq<ProfileView> {
    let i = index_of_id(s, p.id);
    if i >= 0 {
        s.update(i, p)
    } else {
        s.push(p)
    }
}

/// The profiles whose id differs, in order.
pub open spec fn without_id(s: Seq<ProfileView>, id: u128) -> Seq<ProfileView>
    decreases s.len(),
{
    if s.len() == 0 {
        Seq::empty()
    } else if s.last().id == id {
        without_id(s.drop_last(), id)
    } else {
        without_id(s.drop_last(), id).push(s.last())
    }
}

/// No two profiles share an id.
pub open spec fn ids_unique(s: Seq<ProfileView>) -> bool {
    forall|i: int, j: int| 0 <= i < j < s.len() ==> s[i].id != s[j].id
}

pub proof fn lemma_index_of_id(s: Seq<ProfileView>, id: u128)
    ensures
        -1 <= index_of_id(s, id) < s.len(),
        index_of_id(s, id) >= 0 ==> s[index_of_id(s, id)].id == id,
        forall|k: int|
            0 <= k < s.len() && (index_of_id(s, id) < 0 || k < index_of_id(s, id)) ==> s[k].id
                != id,
    decreases s.len(),
{
    if s.len() > 0 {
        lemma_index_of_id(s.drop_last(), id);
        assert forall|k: int|
            0 <= k < s.len() && (index_of_id(s, id) < 0 || k < index_of_id(s, id)) implies s[k].id
                != id by {
            if k < s.len() - 1 {
                assert(s[k] == s.drop_last()[k]);
            }
        }
    }
}

impl AppConfig {
    /// The profile with this id, if any.
    pub fn profile(&self, id: ProfileId) -> (r: Option<&NamespaceProfile>)
        ensures
            match r {
                Some(p) => lookup(self@.profiles, id.value) == Some(p@),
                None => lookup(self@.profiles, id.value) is None,
            },
    {
        let mut i: usize = 0;
        let ghost s = self@.profiles;
        while i < self.profiles.len()
            invariant
                i <= self.profiles.len(),
                s == profiles_view(self.profiles@),
                index_of_id(s.take(i as int), id.value) == -1,
            decreases self.profiles.len() - i,
        {
            assert(s.take(i + 1).drop_last() =~= s.take(i as int));
            if self.profiles[i].id == id {
                proof {
                    lemma_index_of_id(s, id.value);
                    lemma_prefix_index(s, i as int, id.value);
                }
                return Some(&self.profiles[i]);
            }
            i = i + 1;
        }
        assert(s.take(i as int) =~= s);
        None
    }

    /// Insert or replace a profile by id.
    pub fn upsert_profile(&mut self, profile: NamespaceProfile)
        ensures
            final(self)@ == (ConfigView { profiles: upserted(old(self)@.profiles, profile@), ..old(self)@ }),
    {
        let mut i: usize = 0;
        let ghost s = self@.profiles;
        while i < self.profiles.len()
            invariant
                i <= self.profiles.len(),
                s == profiles_view(self.profiles@),
                self@ == old(self)@,
                index_of_id(s.take(i as int), profile.id.value) == -1,
            decreases self.profiles.len() - i,
        {
            assert(s.take(i + 1).drop_last() =~= s.take(i as int));
            if self.profiles[i].id == profile.id {
                proof {
                    lemma_prefix_index(s, i as int, profile.id.value);
                }
                let ghost pv = profile@;
                self.profiles[i] = profile;
                assert(profiles_view(self.profiles@) =~= s.update(i as int, pv));
                return;
            }
            i = i + 1;
        }
        assert(s.take(i as int) =~= s);
        let ghost pv = profile@;
        self.profiles.push(profile);
        assert(profiles_view(self.profiles@) =~= s.push(pv));
    }

    /// Remove every profile with this id.
    pub fn remove_profile(&mut self, id: ProfileId)
        ensures
            final(self)@ == (ConfigView { profiles: without_id(old(self)@.profiles, id.value), ..old(self)@ }),
    {
        let ghost s = self@.profiles;
        let mut old_profiles: Vec<NamespaceProfile> = Vec::new();
        std::mem::swap(&mut old_profiles, &mut self.profiles);
        let mut kept: Vec<NamespaceProfile> = Vec::new();
        for p in it: old_profiles
            invariant
                it.seq() == old_profiles@,
                s == profiles_view(old_profiles@),
                profiles_view(kept@) == without_id(s.take(it.index() as int), id.value),
        {
            let ghost i = it.index() as int;
            assert(s.take(i + 1).drop_last() =~= s.take(i));
            let ghost before = kept@;
            if p.id != id {
                kept.push(p);
                assert(profiles_view(kept@) =~= profiles_view(before).push(s[i]));
            }
        }
        assert(s.take(old_profiles@.len() as int) =~= s);
        self.profiles = kept;
    }
}

/// When the first `i` profiles lack the id and profile `i` has it, `i` is
/// the first index with that id.
proof fn lemma_prefix_index(s: Seq<ProfileView>, i: int, id: u128)
    requires
        0 <= i < s.len(),
        index_of_id(s.take(i), id) == -1,
        s[i].id == id,
    ensures
        index_of_id(s, id) == i,
    decreases s.len(),
{
    if i < s.len() - 1 {
        assert(s.drop_last().take(i) =~= s.take(i));
        lemma_prefix_index(s.drop_last(), i, id);
    } else {
        assert(s.drop_last() =~= s.take(i));
    }
}

// ---- laws ---------------------------------------------------------------------------------

/// After inserting or replacing a profile, looking its id up gives it back.
pub proof fn law_upsert_then_lookup(s: Seq<ProfileView>, p: ProfileView)
    ensures
        lookup(upserted(s, p), p.id) == Some(p),
{
    lemma_index_of_id(s, p.id);
    let t = upserted(s, p);
    let i = index_of_id(s, p.id);
    if i >= 0 {
        assert(t.take(i) =~= s.take(i));
        lemma_index_of_id(s.take(i), p.id);
        assert(index_of_id(s.take(i), p.id) == -1) by {
            if index_of_id(s.take(i), p.id) >= 0 {
                assert(s.take(i)[index_of_id(s.take(i), p.id)] == s[index_of_id(s.take(i), p.id)]);
            }
        }
        lemma_prefix_index(t, i, p.id);
    } else {
        assert(t.drop_last() =~= s);
    }
}

/// Inserting or replacing a profile leaves every other id's lookup as it was.
pub proof fn law_upsert_keeps_others(s: Seq<ProfileView>, p: ProfileView, id: u128)
    requires
        id != p.id,
    ensures
        lookup(upserted(s, p), id) == lookup(s, id),
{
    lemma_index_of_id(s, p.id);
    lemma_index_of_id(s, id);
    let t = upserted(s, p);
    lemma_index_of_id(t, id);
    let j = index_of_id(s, id);
    let k = index_of_id(t, id);
    if j >= 0 {
        assert(t[j].id == id);
        assert(k == j) by {
            if k < j {
                assert(t[k] == s[k]);
            }
        }
    } else {
        assert(k < 0) by {
            if k >= 0 {
                assert(t[k].id == id);
                if k < s.len() {
                    assert(t[k] == s[k] || k == index_of_id(s, p.id));
                }
            }
        }
    }
}

/// Inserting or replacing keeps profile ids unique, and adds a profile only
/// when none had its id.
pub proof fn law_upsert_keeps_ids_unique(s: Seq<ProfileView>, p: ProfileView)
    requires
        ids_unique(s),
    ensures
        ids_unique(upserted(s, p)),
        upserted(s, p).len() == if lookup(s, p.id) is Some { s.len() } else { s.len() + 1 },
{
    lemma_index_of_id(s, p.id);
    let t = upserted(s, p);
    let i = index_of_id(s, p.id);
    assert forall|a: int, b: int| 0 <= a < b < t.len() implies t[a].id != t[b].id by {
        if i >= 0 {
            if a == i {
                assert(s[b].id != s[i].id);
            } else if b == i {
                assert(s[a].id != s[i].id);
            }
        } else {
            if b == s.len() {
                assert(s[a].id != p.id);
            }
        }
    }
}

/// After removing an id, no profile has it, and every other profile is kept.
pub proof fn law_remove_then_lookup(s: Seq<ProfileView>, id: u128, other: u128)
    requires
        other != id,
    ensures
        lookup(without_id(s, id), id) is None,
        lookup(without_id(s, id), other) == lookup(s, other),
    decreases s.len(),
{
    if s.len() > 0 {
        let s0 = s.drop_last();
        law_remove_then_lookup(s0, id, other);
        lemma_index_of_id(s, other);
        lemma_index_of_id(s0, other);
        let r0 = without_id(s0, id);
        lemma_index_of_id(r0, other);
        let j = index_of_id(s0, other);
        if j >= 0 {
            assert(s[j] == s0[j]);
        }
        if s.last().id != id {
            let r = without_id(s, id);
            assert(r.drop_last() =~= r0);
            let k = index_of_id(r0, other);
            if k >= 0 {
                assert(r[k] == r0[k]);
            }
        }
    }
}

} // verus!
