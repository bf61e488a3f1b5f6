//! Secret material: a string that is wiped from memory on drop and never
//! printed, plus the identifiers under which secrets are stored.

use vstd::prelude::*;
use zeroize::Zeroizing;
use crate::body::{hex_digit, hex_digit_char};
use crate::config::ProfileId;
use crate::text::{chars_eq_str, push_str, str_chars, string_from_chars};

verus! {

broadcast use vstd::string::group_string_axioms;

/// Holder of a `zeroize::Zeroizing<String>` (whose `Zeroize` bound Verus
/// cannot take in a type declaration): the string is wiped when dropped.
#[verifier::external_body]
pub struct SecretCell {
    inner: Zeroizing<String>,
}

/// The string held by a [`SecretCell`].
pub uninterp spec fn secret_cell_text(c: SecretCell) -> Seq<char>;

/// `Zeroizing::new`: wraps the value unchanged (it is wiped when dropped).
#[verifier::external_body]
fn secret_cell_new(value: String) -> (c: SecretCell)
    ensures
        secret_cell_text(c) == value@,
{
    SecretCell { inner: Zeroizing::new(value) }
}

/// `Deref for Zeroizing`: gives access to the wrapped value.
#[verifier::external_body]
fn secret_cell_str(c: &SecretCell) -> (s: &str)
    ensures
        s@ == secret_cell_text(*c),
{
    c.inner.as_str()
}

/// `Clone for Zeroizing<String>`: clones the wrapped value.
#[verifier::external_body]
fn secret_cell_clone(c: &SecretCell) -> (d: SecretCell)
    ensures
        secret_cell_text(d) == secret_cell_text(*c),
{
    SecretCell { inner: c.inner.clone() }
}

/// A secret value that is zeroed on drop and redacted in debug output.
pub struct SecretString {
    value: SecretCell,
}

impl View for SecretString {
    type V = Seq<char>;

    closed spec fn view(&self) -> Seq<char> {
        secret_cell_text(self.value)
    }
}

impl SecretString {
    pub fn new(value: String) -> (r: SecretString)
        ensures
            r@ == value@,
    {
        SecretString { value: secret_cell_new(value) }
    }

    /// Secret material from a string slice.
    pub fn from_str(value: &str) -> (r: SecretString)
        ensures
            r@ == value@,
    {
        SecretString::new(value.to_owned())
    }

    /// Access the secret material. Keep the borrow as short-lived as possible.
    pub fn expose(&self) -> (r: &str)
        ensures
            r@ == self@,
    {
        secret_cell_str(&self.value)
    }

    pub fn is_empty(&self) -> (r: bool)
        ensures
            r == (self@.len() == 0),
    {
        self.expose().is_empty()
    }

    pub fn duplicate(&self) -> (r: SecretString)
        ensures
            r@ == self@,
    {
        SecretString { value: secret_cell_clone(&self.value) }
    }

    /// What the debug rendering of a secret shows: never the secret.
    pub fn redacted(&self) -> (r: String)
        ensures
            r@ == "SecretString(<redacted>)"@,
    {
        "SecretString(<redacted>)".to_owned()
    }
}

/// What kind of secret a [`SecretRef`] points at.
#[derive(Clone, Copy, Debug, PartialEq, Eq, Structural, Hash)]
pub enum SecretKind {
    ConnectionString,
    SasKey,
    ClientSecret,
}

pub open spec fn kind_text(k: SecretKind) -> Seq<char> {
    match k {
        SecretKind::ConnectionString => "connection_string"@,
        SecretKind::SasKey => "sas_key"@,
        SecretKind::ClientSecret => "client_secret"@,
    }
}

impl SecretKind {
    pub fn as_str(self) -> (r: &'static str)
        ensures
            r@ == kind_text(self),
    {
        match self {
            SecretKind::ConnectionString => "connection_string",
            SecretKind::SasKey => "sas_key",
            SecretKind::ClientSecret => "client_secret",
        }
    }
}

/// Exactly `n` lowercase hexadecimal digits of `v` (its low `4n` bits),
/// most significant first.
pub open spec fn hex_digits(v: nat, n: nat) -> Seq<char>
    decreases n,
{
    if n == 0 {
        Seq::empty()
    } else {
        hex_digits(v / 16, (n - 1) as nat).push(hex_digit(v % 16))
    }
}

/// The hyphenated lowercase form of a UUID's 128 bits (8-4-4-4-12 digits),
/// as the `uuid` crate displays it.
pub open spec fn uuid_text(v: u128) -> Seq<char> {
    let h = hex_digits(v as nat, 32);
    h.subrange(0, 8) + seq!['-'] + h.subrange(8, 12) + seq!['-'] + h.subrange(12, 16) + seq![
        '-',
    ] + h.subrange(16, 20) + seq!['-'] + h.subrange(20, 32)
}

proof fn lemma_hex_digits_len(v: nat, n: nat)
    ensures
        hex_digits(v, n).len() == n,
    decreases n,
{
    if n > 0 {
        lemma_hex_digits_len(v / 16, (n - 1) as nat);
    }
}

fn push_hex_digits(out: &mut Vec<char>, v: u128, n: u32)
    ensures
        final(out)@ == old(out)@ + hex_digits(v as nat, n as nat),
    decreases n,
{
    if n > 0 {
        push_hex_digits(out, v / 16, n - 1);
        let d = (v % 16) as u64;
        out.push(hex_digit_char(d));
        proof {
            assert(hex_digits(v as nat, n as nat) == hex_digits((v / 16) as nat, (n - 1) as nat).push(
                hex_digit((v % 16) as nat),
            ));
        }
    } else {
        assert(old(out)@ + hex_digits(v as nat, 0) =~= old(out)@);
    }
}

/// Identifies one secret belonging to one namespace profile.
#[derive(Clone, Copy, Debug, PartialEq, Eq, Hash, Structural)]
pub struct SecretRef {
    pub profile_id: ProfileId,
    pub kind: SecretKind,
}

/// The account name a secret is stored under: the profile id, a colon and
/// the kind.
pub open spec fn account_text(r: SecretRef) -> Seq<char> {
    uuid_text(r.profile_id.value) + seq![':'] + kind_text(r.kind)
}

impl SecretRef {
    pub fn new(profile_id: ProfileId, kind: SecretKind) -> (r: SecretRef)
        ensures
            r.profile_id == profile_id,
            r.kind == kind,
    {
        SecretRef { profile_id, kind }
    }

    /// The account name used in the credential store.
    pub fn account(&self) -> (r: String)
        ensures
            r@ == account_text(*self),
    {
        let mut h: Vec<char> = Vec::new();
        push_hex_digits(&mut h, self.profile_id.value, 32);
        assert(h@ =~= hex_digits(self.profile_id.value as nat, 32));
        proof {
            lemma_hex_digits_len(self.profile_id.value as nat, 32);
        }
        let ghost hs = h@;
        let mut out: Vec<char> = Vec::new();
        let mut i: usize = 0;
        while i < 32
            invariant
                i <= 32,
                h@ == hs,
                hs.len() == 32,
                out@ == dashed(hs, i as int),
            decreases 32 - i,
        {
            if i == 8 || i == 12 || i == 16 || i == 20 {
                out.push('-');
            }
            out.push(h[i]);
            i = i + 1;
        }
        proof {
            lemma_dashed(hs);
        }
        push_str(&mut out, ":");
        push_str(&mut out, self.kind.as_str());
        let r = string_from_chars(out.as_slice());
        proof {
            reveal_strlit(":");
        }
        assert(r@ =~= account_text(*self));
        r
    }
}

/// The first `i` digits with a hyphen before digits 8, 12, 16 and 20.
pub open spec fn dashed(h: Seq<char>, i: int) -> Seq<char>
    decreases i,
{
    if i <= 0 {
        Seq::empty()
    } else {
        let prev = dashed(h, i - 1);
        let k = i - 1;
        if k == 8 || k == 12 || k == 16 || k == 20 {
            prev.push('-').push(h[k])
        } else {
            prev.push(h[k])
        }
    }
}

proof fn lemma_dashed(h: Seq<char>)
    requires
        h.len() == 32,
    ensures
        dashed(h, 32) == h.subrange(0, 8) + seq!['-'] + h.subrange(8, 12) + seq!['-'] + h.subrange(
            12,
            16,
        ) + seq!['-'] + h.subrange(16, 20) + seq!['-'] + h.subrange(20, 32),
{
    reveal_with_fuel(dashed, 33);
    assert(dashed(h, 32) =~= h.subrange(0, 8) + seq!['-'] + h.subrange(8, 12) + seq!['-']
        + h.subrange(12, 16) + seq!['-'] + h.subrange(16, 20) + seq!['-'] + h.subrange(20, 32));
}

/// Failure of a secret store backend.
#[derive(Debug, Clone, PartialEq, Eq)]
pub enum SecretError {
    Store(String),
}

impl SecretError {
    /// The error's message text.
    pub fn message(&self) -> (r: String)
        ensures
            match *self {
                SecretError::Store(m) => r@ == "secret store error: "@ + m@,
            },
    {
        match self {
            SecretError::Store(m) => {
                let mut v: Vec<char> = Vec::new();
                push_str(&mut v, "secret store error: ");
                push_str(&mut v, m.as_str());
                string_from_chars(v.as_slice())
            },
        }
    }
}

/// Where secrets are kept, so that the rest of the application never touches
/// key material storage directly. Backends depend on the platform: nothing
/// is promised of what they return.
pub trait SecretStore {
    fn get(&self, key: &SecretRef) -> Result<Option<SecretString>, SecretError>;

    fn set(&self, key: &SecretRef, value: &SecretString) -> Result<(), SecretError>;

    fn delete(&self, key: &SecretRef) -> Result<(), SecretError>;

    /// Human-readable backend name.
    fn backend_name(&self) -> &'static str;
}

/// The service name under which secrets are kept in the OS credential store.
pub const KEYRING_SERVICE: &'static str = "sift";

/// A failure of the OS credential store, with the store's own message.
#[derive(Clone, Debug, PartialEq, Eq)]
pub enum KeyringFailure {
    /// There is no credential under the entry.
    NoEntry(String),
    Other(String),
}

pub open spec fn failure_message(f: KeyringFailure) -> Seq<char> {
    match f {
        KeyringFailure::NoEntry(m) => m@,
        KeyringFailure::Other(m) => m@,
    }
}

#[verifier::external_type_specification]
#[verifier::external_body]
pub struct ExKeyringEntry(keyring::Entry);

/// `keyring::Entry::new`: an entry for a service and user under the default
/// credential builder. Whether it succeeds depends on the platform's store;
/// nothing is stated of the outcome.
#[verifier::external_body]
fn keyring_entry(service: &str, user: &str) -> (r: Result<keyring::Entry, KeyringFailure>) {
    match keyring::Entry::new(service, user) {
        Ok(entry) => Ok(entry),
        Err(e) => {
            let message = e.to_string();
            match e {
                keyring::Error::NoEntry => Err(KeyringFailure::NoEntry(message)),
                _ => Err(KeyringFailure::Other(message)),
            }
        },
    }
}

/// `keyring::Entry::get_password`: what the OS store holds under the entry
/// (not stated: it is the store's state).
#[verifier::external_body]
fn keyring_get_password(entry: &keyring::Entry) -> (r: Result<String, KeyringFailure>) {
    match entry.get_password() {
        Ok(value) => Ok(value),
        Err(e) => {
            let message = e.to_string();
            match e {
                keyring::Error::NoEntry => Err(KeyringFailure::NoEntry(message)),
                _ => Err(KeyringFailure::Other(message)),
            }
        },
    }
}

/// `keyring::Entry::set_password`: stores the password under the entry; the
/// outcome depends on the OS store and is not stated.
#[verifier::external_body]
fn keyring_set_password(entry: &keyring::Entry, password: &str) -> (r: Result<(), KeyringFailure>) {
    match entry.set_password(password) {
        Ok(()) => Ok(()),
        Err(e) => {
            let message = e.to_string();
            match e {
                keyring::Error::NoEntry => Err(KeyringFailure::NoEntry(message)),
                _ => Err(KeyringFailure::Other(message)),
            }
        },
    }
}

/// `keyring::Entry::delete_credential`: removes the credential under the
/// entry; the outcome depends on the OS store and is not stated.
#[verifier::external_body]
fn keyring_delete_credential(entry: &keyring::Entry) -> (r: Result<(), KeyringFailure>) {
    match entry.delete_credential() {
        Ok(()) => Ok(()),
        Err(e) => {
            let message = e.to_string();
            match e {
                keyring::Error::NoEntry => Err(KeyringFailure::NoEntry(message)),
                _ => Err(KeyringFailure::Other(message)),
            }
        },
    }
}

/// Any credential-store failure reported as a store error with its message.
pub fn store_failure(f: KeyringFailure) -> (e: SecretError)
    ensures
        e matches SecretError::Store(m) && m@ == failure_message(f),
{
    match f {
        KeyringFailure::NoEntry(m) => SecretError::Store(m),
        KeyringFailure::Other(m) => SecretError::Store(m),
    }
}

/// What a read from the OS store means: a value, no secret when the store
/// has no entry, else a store error.
pub fn get_outcome(r: Result<String, KeyringFailure>) -> (o: Result<Option<SecretString>, SecretError>)
    ensures
        match r {
            Ok(v) => o matches Ok(Some(s)) && s@ == v@,
            Err(KeyringFailure::NoEntry(_)) => o matches Ok(None),
            Err(KeyringFailure::Other(m)) => o matches Err(SecretError::Store(x)) && x@ == m@,
        },
{
    match r {
        Ok(v) => Ok(Some(SecretString::new(v))),
        Err(KeyringFailure::NoEntry(_)) => Ok(None),
        Err(KeyringFailure::Other(m)) => Err(SecretError::Store(m)),
    }
}

/// What a delete from the OS store means: deleting a secret that is not
/// there succeeds.
pub fn delete_outcome(r: Result<(), KeyringFailure>) -> (o: Result<(), SecretError>)
    ensures
        match r {
            Ok(()) => o is Ok,
            Err(KeyringFailure::NoEntry(_)) => o is Ok,
            Err(KeyringFailure::Other(m)) => o matches Err(SecretError::Store(x)) && x@ == m@,
        },
{
    match r {
        Ok(()) => Ok(()),
        Err(KeyringFailure::NoEntry(_)) => Ok(()),
        Err(KeyringFailure::Other(m)) => Err(SecretError::Store(m)),
    }
}

/// OS-native credential storage through the `keyring` crate. Each secret is
/// kept under the service [`KEYRING_SERVICE`] and the account of its
/// [`SecretRef`].
#[derive(Debug)]
pub struct KeyringStore {
    backend: &'static str,
}

/// The name of the credential store the `keyring` crate uses on an
/// operating system (as `std::env::consts::OS` names it).
pub open spec fn platform_store_name(os: Seq<char>) -> Seq<char> {
    if os == "windows"@ {
        "Windows Credential Manager"@
    } else if os == "macos"@ {
        "macOS Keychain"@
    } else {
        "Secret Service"@
    }
}

impl KeyringStore {
    /// The store of the operating system `os`.
    pub fn for_platform(os: &str) -> (r: KeyringStore)
        ensures
            r.backend_view() == platform_store_name(os@),
    {
        let c = str_chars(os);
        if chars_eq_str(c.as_slice(), "windows") {
            KeyringStore { backend: "Windows Credential Manager" }
        } else if chars_eq_str(c.as_slice(), "macos") {
            KeyringStore { backend: "macOS Keychain" }
        } else {
            KeyringStore { backend: "Secret Service" }
        }
    }

    pub closed spec fn backend_view(&self) -> Seq<char> {
        self.backend@
    }

    fn entry(key: &SecretRef) -> (r: Result<keyring::Entry, SecretError>) {
        let account = key.account();
        match keyring_entry(KEYRING_SERVICE, account.as_str()) {
            Ok(entry) => Ok(entry),
            Err(f) => Err(store_failure(f)),
        }
    }
}

impl SecretStore for KeyringStore {
    fn get(&self, key: &SecretRef) -> Result<Option<SecretString>, SecretError> {
        let entry = KeyringStore::entry(key)?;
        get_outcome(keyring_get_password(&entry))
    }

    fn set(&self, key: &SecretRef, value: &SecretString) -> Result<(), SecretError> {
        let entry = KeyringStore::entry(key)?;
        match keyring_set_password(&entry, value.expose()) {
            Ok(()) => Ok(()),
            Err(f) => Err(store_failure(f)),
        }
    }

    fn delete(&self, key: &SecretRef) -> Result<(), SecretError> {
        let entry = KeyringStore::entry(key)?;
        delete_outcome(keyring_delete_credential(&entry))
    }

    /// The name of the platform's credential store.
    fn backend_name(&self) -> (r: &'static str)
        ensures
            r@ == self.backend_view(),
    {
        self.backend
    }
}

} // verus!
