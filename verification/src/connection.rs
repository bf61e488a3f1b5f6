//! Service Bus connection-string parsing: parameters split on `;`, keys
//! matched case-insensitively, values taken verbatim after the first `=`, and
//! endpoints without a scheme prefixed with `sb://`. Parameters of the legacy
//! on-premises product are recognized and reported rather than supported.

use vstd::prelude::*;
use crate::secrets::SecretString;
use crate::text::{
    chars_eq_str, contains_sub, decimal, find_char, first_index, has_sub, lemma_first_index, lower,
    push_chars, push_decimal, push_str, slice_to_vec, str_chars, string_from_chars, to_lower, trim, trim_bounds, trim_end, trim_start,
};

verus! {

broadcast use vstd::string::group_string_axioms;

// ---- URLs ---------------------------------------------------------------------------

/// What the `url` crate makes of a string: its serialization, scheme, host
/// and explicit port, or `None` when it is not a valid URL.
pub uninterp spec fn parsed_url(s: Seq<char>) -> Option<(Seq<char>, Seq<char>, Option<Seq<char>>, Option<u16>)>;

/// A parsed endpoint URL, held as the plain values the library reads.
#[derive(Clone, Debug, PartialEq, Eq)]
pub struct Endpoint {
    serialization: String,
    scheme: String,
    host: Option<String>,
    port: Option<u16>,
}

pub open spec fn opt_view(o: Option<String>) -> Option<Seq<char>> {
    match o {
        Some(s) => Some(s@),
        None => None,
    }
}

impl View for Endpoint {
    type V = (Seq<char>, Seq<char>, Option<Seq<char>>, Option<u16>);

    closed spec fn view(&self) -> Self::V {
        (self.serialization@, self.scheme@, opt_view(self.host), self.port)
    }
}

pub open spec fn endpoint_view(e: Option<Endpoint>) -> Option<(Seq<char>, Seq<char>, Option<Seq<char>>, Option<u16>)> {
    match e {
        Some(e) => Some(e@),
        None => None,
    }
}

/// `url::Url::parse`, read back through `as_str`, `scheme`, `host_str` and
/// `port`.
#[verifier::external_body]
fn url_parse(s: &str) -> (r: Option<Endpoint>)
    ensures
        endpoint_view(r) == parsed_url(s@),
{
    match url::Url::parse(s) {
        Ok(u) => Some(
            Endpoint {
                serialization: u.as_str().to_owned(),
                scheme: u.scheme().to_owned(),
                host: u.host_str().map(|h| h.to_owned()),
                port: u.port(),
            },
        ),
        Err(_) => None,
    }
}

impl Endpoint {
    /// Parse a URL.
    pub fn parse(s: &str) -> (r: Option<Endpoint>)
        ensures
            endpoint_view(r) == parsed_url(s@),
    {
        url_parse(s)
    }

    /// The serialized URL.
    pub fn as_str(&self) -> (r: &str)
        ensures
            r@ == self@.0,
    {
        self.serialization.as_str()
    }

    pub fn scheme(&self) -> (r: &str)
        ensures
            r@ == self@.1,
    {
        self.scheme.as_str()
    }

    pub fn host_str(&self) -> (r: Option<&str>)
        ensures
            r matches Some(h) ==> self@.2 == Some(h@),
            r is None ==> self@.2 is None,
    {
        match &self.host {
            Some(h) => Some(h.as_str()),
            None => None,
        }
    }

    /// The explicit port, if any.
    pub fn port(&self) -> (r: Option<u16>)
        ensures
            r == self@.3,
    {
        self.port
    }

    /// A copy with the same contents.
    pub fn duplicate(&self) -> (r: Endpoint)
        ensures
            r@ == self@,
    {
        Endpoint {
            serialization: self.serialization.clone(),
            scheme: self.scheme.clone(),
            host: match &self.host {
                Some(h) => Some(h.clone()),
                None => None,
            },
            port: self.port,
        }
    }
}

// ---- connection strings -------------------------------------------------------------

/// AMQP transport variant. The legacy `NetMessaging` transport parses as AMQP
/// with a warning.
#[derive(Clone, Copy, Debug, PartialEq, Eq, Structural)]
pub enum TransportType {
    AmqpTcp,
    AmqpWebSockets,
}

impl TransportType {
    pub fn default() -> (r: TransportType)
        ensures
            r == TransportType::AmqpTcp,
    {
        TransportType::AmqpTcp
    }
}

/// Credential material carried by a connection string.
pub enum Credential {
    /// `SharedAccessKeyName` + `SharedAccessKey`: tokens are minted locally.
    SasKey { key_name: String, key: SecretString },
    /// `SharedAccessSignature=...`: a pre-minted token used as-is.
    SasToken(SecretString),
}

#[derive(Clone, Debug, PartialEq, Eq)]
pub enum ConnectionStringError {
    Empty,
    MissingEndpoint,
    InvalidEndpoint(String),
    MissingCredentials,
    IncompleteSasKey,
}

/// What a connection string can be rejected with, as plain values.
pub enum ErrorView {
    Empty,
    MissingEndpoint,
    InvalidEndpoint(Seq<char>),
    MissingCredentials,
    IncompleteSasKey,
}

pub open spec fn error_view(e: ConnectionStringError) -> ErrorView {
    match e {
        ConnectionStringError::Empty => ErrorView::Empty,
        ConnectionStringError::MissingEndpoint => ErrorView::MissingEndpoint,
        ConnectionStringError::InvalidEndpoint(s) => ErrorView::InvalidEndpoint(s@),
        ConnectionStringError::MissingCredentials => ErrorView::MissingCredentials,
        ConnectionStringError::IncompleteSasKey => ErrorView::IncompleteSasKey,
    }
}

impl ConnectionStringError {
    /// The user-facing message.
    pub fn message(&self) -> (r: String)
        ensures
            r@ == error_message(error_view(*self)),
    {
        match self {
            ConnectionStringError::Empty => "the connection string is empty".to_owned(),
            ConnectionStringError::MissingEndpoint => "the connection string has no Endpoint parameter".to_owned(),
            ConnectionStringError::InvalidEndpoint(e) => {
                let mut out: Vec<char> = Vec::new();
                push_str(&mut out, "the endpoint '");
                push_str(&mut out, e.as_str());
                push_str(&mut out, "' is not a valid URI");
                string_from_chars(out.as_slice())
            },
            ConnectionStringError::MissingCredentials => "the connection string has no credentials; expected SharedAccessKeyName and SharedAccessKey, or SharedAccessSignature".to_owned(),
            ConnectionStringError::IncompleteSasKey => "SharedAccessKeyName and SharedAccessKey must both be present".to_owned(),
        }
    }
}

pub open spec fn error_message(e: ErrorView) -> Seq<char> {
    match e {
        ErrorView::Empty => "the connection string is empty"@,
        ErrorView::MissingEndpoint => "the connection string has no Endpoint parameter"@,
        ErrorView::InvalidEndpoint(s) => "the endpoint '"@ + s + "' is not a valid URI"@,
        ErrorView::MissingCredentials => "the connection string has no credentials; expected SharedAccessKeyName and SharedAccessKey, or SharedAccessSignature"@,
        ErrorView::IncompleteSasKey => "SharedAccessKeyName and SharedAccessKey must both be present"@,
    }
}

/// Parameters gathered so far while scanning a connection string.
pub struct ParamScan {
    pub endpoint: Option<Seq<char>>,
    pub key_name: Option<Seq<char>>,
    pub key: Option<Seq<char>>,
    pub sas_token: Option<Seq<char>>,
    pub entity_path: Option<Seq<char>>,
    pub transport: TransportType,
    pub emulator: bool,
    pub warnings: Seq<Seq<char>>,
}

pub open spec fn initial_scan() -> ParamScan {
    ParamScan {
        endpoint: None,
        key_name: None,
        key: None,
        sas_token: None,
        entity_path: None,
        transport: TransportType::AmqpTcp,
        emulator: false,
        warnings: Seq::empty(),
    }
}

pub open spec fn is_legacy_key(key: Seq<char>) -> bool {
    key == "stsendpoint"@ || key == "runtimeport"@ || key == "managementport"@ || key
        == "windowsdomain"@ || key == "windowsusername"@ || key == "windowspassword"@
}

pub open spec fn warn(st: ParamScan, w: Seq<char>) -> ParamScan {
    ParamScan { warnings: st.warnings.push(w), ..st }
}

/// One `key=value` parameter, applied to the scan state.
pub open spec fn param_step(st: ParamScan, part: Seq<char>) -> ParamScan {
    let p = trim(part);
    if p.len() == 0 {
        st
    } else {
        let e = first_index(p, '=');
        if e < 0 {
            warn(st, "ignoring malformed parameter '"@ + p + "'"@)
        } else {
            let raw = trim(p.take(e));
            let key = lower(raw);
            let value = trim(p.skip(e + 1));
            if key == "endpoint"@ {
                ParamScan { endpoint: Some(value), ..st }
            } else if key == "sharedaccesskeyname"@ {
                ParamScan { key_name: Some(value), ..st }
            } else if key == "sharedaccesskey"@ {
                ParamScan { key: Some(value), ..st }
            } else if key == "sharedaccesssignature"@ {
                ParamScan { sas_token: Some(value), ..st }
            } else if key == "entitypath"@ {
                ParamScan { entity_path: Some(value), ..st }
            } else if key == "transporttype"@ {
                let v = lower(value);
                if v == "amqp"@ {
                    ParamScan { transport: TransportType::AmqpTcp, ..st }
                } else if v == "amqpwebsockets"@ {
                    ParamScan { transport: TransportType::AmqpWebSockets, ..st }
                } else {
                    ParamScan {
                        transport: TransportType::AmqpTcp,
                        ..warn(st, "transport type '"@ + v + "' is not supported; using AMQP"@)
                    }
                }
            } else if key == "usedevelopmentemulator"@ {
                ParamScan { emulator: lower(value) == "true"@, ..st }
            } else if is_legacy_key(key) {
                warn(st, "ignoring legacy on-premises parameter '"@ + raw + "'"@)
            } else {
                warn(st, "ignoring unknown parameter '"@ + key + "'"@)
            }
        }
    }
}

/// Applies every `;`-separated parameter of `s`, left to right.
pub open spec fn scan_params(s: Seq<char>, st: ParamScan) -> ParamScan
    decreases s.len(),
{
    let i = first_index(s, ';');
    if i < 0 {
        param_step(st, s)
    } else {
        proof {
            crate::text::lemma_first_index_props(s, ';');
        }
        scan_params(s.skip(i + 1), param_step(st, s.take(i)))
    }
}

pub enum CredentialView {
    SasKey(Seq<char>, Seq<char>),
    SasToken(Seq<char>),
}

/// A parsed connection string, as plain values.
pub struct ConnectionView {
    pub endpoint: (Seq<char>, Seq<char>, Option<Seq<char>>, Option<u16>),
    pub fully_qualified_namespace: Seq<char>,
    pub namespace: Seq<char>,
    pub credential: CredentialView,
    pub entity_path: Option<Seq<char>>,
    pub transport: TransportType,
    pub use_development_emulator: bool,
    pub warnings: Seq<Seq<char>>,
    pub raw: Seq<char>,
}

/// The host's first label.
pub open spec fn first_label(host: Seq<char>) -> Seq<char> {
    let i = first_index(host, '.');
    if i < 0 {
        host
    } else {
        host.take(i)
    }
}

pub open spec fn credential_of(st: ParamScan) -> Result<CredentialView, ErrorView> {
    if st.key_name is Some && st.key is Some && st.key_name->0.len() > 0 && st.key->0.len() > 0 {
        Ok(CredentialView::SasKey(st.key_name->0, st.key->0))
    } else if (st.key_name is Some || st.key is Some) && st.sas_token is None {
        Err(ErrorView::IncompleteSasKey)
    } else if st.sas_token is Some && st.sas_token->0.len() > 0 {
        Ok(CredentialView::SasToken(st.sas_token->0))
    } else {
        Err(ErrorView::MissingCredentials)
    }
}

/// Endpoint text with `sb://` added when it has no scheme separator.
pub open spec fn with_scheme(ep: Seq<char>) -> Seq<char> {
    if has_sub(ep, "://"@) {
        ep
    } else {
        "sb://"@ + ep
    }
}

/// What parsing a connection string yields.
pub open spec fn spec_parse_connection(input: Seq<char>) -> Result<ConnectionView, ErrorView> {
    let t = trim(input);
    if t.len() == 0 {
        Err(ErrorView::Empty)
    } else {
        let st = scan_params(t, initial_scan());
        match st.endpoint {
            None => Err(ErrorView::MissingEndpoint),
            Some(ep) => {
                let ep2 = with_scheme(ep);
                match parsed_url(ep2) {
                    None => Err(ErrorView::InvalidEndpoint(ep2)),
                    Some(u) => match u.2 {
                        None => Err(ErrorView::InvalidEndpoint(ep2)),
                        Some(host) => match credential_of(st) {
                            Err(e) => Err(e),
                            Ok(cred) => Ok(
                                ConnectionView {
                                    endpoint: u,
                                    fully_qualified_namespace: host,
                                    namespace: first_label(host),
                                    credential: cred,
                                    entity_path: st.entity_path,
                                    transport: st.transport,
                                    use_development_emulator: st.emulator,
                                    warnings: st.warnings,
                                    raw: t,
                                },
                            ),
                        },
                    },
                }
            },
        }
    }
}

/// A parsed namespace connection string.
pub struct NamespaceConnection {
    /// The `sb://` endpoint, normalized.
    pub endpoint: Endpoint,
    /// Host name, e.g. `contoso.servicebus.windows.net`.
    pub fully_qualified_namespace: String,
    /// First host label, e.g. `contoso`.
    pub namespace: String,
    pub credential: Credential,
    /// Present when the connection string is scoped to a single entity.
    pub entity_path: Option<String>,
    pub transport: TransportType,
    /// `UseDevelopmentEmulator=true` (local Service Bus emulator).
    pub use_development_emulator: bool,
    /// Non-fatal issues found while parsing.
    pub warnings: Vec<String>,
    /// The original (trimmed) string, needed verbatim by AMQP clients.
    raw: SecretString,
}

pub open spec fn credential_view(c: Credential) -> CredentialView {
    match c {
        Credential::SasKey { key_name, key } => CredentialView::SasKey(key_name@, key@),
        Credential::SasToken(t) => CredentialView::SasToken(t@),
    }
}

pub open spec fn strings_view(v: Seq<String>) -> Seq<Seq<char>> {
    v.map_values(|s: String| s@)
}

impl View for NamespaceConnection {
    type V = ConnectionView;

    closed spec fn view(&self) -> ConnectionView {
        ConnectionView {
            endpoint: self.endpoint@,
            fully_qualified_namespace: self.fully_qualified_namespace@,
            namespace: self.namespace@,
            credential: credential_view(self.credential),
            entity_path: opt_view(self.entity_path),
            transport: self.transport,
            use_development_emulator: self.use_development_emulator,
            warnings: strings_view(self.warnings@),
            raw: self.raw@,
        }
    }
}

// ---- parsing --------------------------------------------------------------------------

struct ScanState {
    endpoint: Option<Vec<char>>,
    key_name: Option<Vec<char>>,
    key: Option<Vec<char>>,
    sas_token: Option<Vec<char>>,
    entity_path: Option<Vec<char>>,
    transport: TransportType,
    emulator: bool,
    warnings: Vec<String>,
}

spec fn chars_opt(o: Option<Vec<char>>) -> Option<Seq<char>> {
    match o {
        Some(v) => Some(v@),
        None => None,
    }
}

spec fn state_view(st: ScanState) -> ParamScan {
    ParamScan {
        endpoint: chars_opt(st.endpoint),
        key_name: chars_opt(st.key_name),
        key: chars_opt(st.key),
        sas_token: chars_opt(st.sas_token),
        entity_path: chars_opt(st.entity_path),
        transport: st.transport,
        emulator: st.emulator,
        warnings: strings_view(st.warnings@),
    }
}

/// Appends `prefix ++ middle ++ suffix` to the warnings.
fn push_warning(st: &mut ScanState, prefix: &str, middle: &[char], suffix: &str)
    ensures
        state_view(*final(st)) == warn(state_view(*old(st)), prefix@ + middle@ + suffix@),
{
    let mut w: Vec<char> = Vec::new();
    push_str(&mut w, prefix);
    push_chars(&mut w, middle);
    push_str(&mut w, suffix);
    let ws = string_from_chars(w.as_slice());
    let ghost before = st.warnings@;
    st.warnings.push(ws);
    assert(strings_view(st.warnings@) =~= strings_view(before).push(prefix@ + middle@ + suffix@));
}

/// Applies the parameter `s[lo..hi]`.
fn apply_param(st: &mut ScanState, s: &[char], lo: usize, hi: usize)
    requires
        lo <= hi <= s.len(),
    ensures
        state_view(*final(st)) == param_step(state_view(*old(st)), s@.subrange(lo as int, hi as int)),
{
    let (a, b) = trim_bounds(s, lo, hi);
    if a == b {
        return;
    }
    let ghost p = s@.subrange(a as int, b as int);
    let e = find_char(s, a, b, '=');
    if e == b {
        push_warning(st, "ignoring malformed parameter '", slice_to_vec(s, a, b).as_slice(), "'");
        return;
    }
    let (ka, kb) = trim_bounds(s, a, e);
    let (va, vb) = trim_bounds(s, e + 1, b);
    proof {
        assert(p.take(e - a) =~= s@.subrange(a as int, e as int));
        assert(p.skip(e - a + 1) =~= s@.subrange(e + 1, b as int));
    }
    let raw = slice_to_vec(s, ka, kb);
    let key = to_lower(raw.as_slice());
    let value = slice_to_vec(s, va, vb);
    if chars_eq_str(key.as_slice(), "endpoint") {
        st.endpoint = Some(value);
    } else if chars_eq_str(key.as_slice(), "sharedaccesskeyname") {
        st.key_name = Some(value);
    } else if chars_eq_str(key.as_slice(), "sharedaccesskey") {
        st.key = Some(value);
    } else if chars_eq_str(key.as_slice(), "sharedaccesssignature") {
        st.sas_token = Some(value);
    } else if chars_eq_str(key.as_slice(), "entitypath") {
        st.entity_path = Some(value);
    } else if chars_eq_str(key.as_slice(), "transporttype") {
        let v = to_lower(value.as_slice());
        if chars_eq_str(v.as_slice(), "amqp") {
            st.transport = TransportType::AmqpTcp;
        } else if chars_eq_str(v.as_slice(), "amqpwebsockets") {
            st.transport = TransportType::AmqpWebSockets;
        } else {
            push_warning(st, "transport type '", v.as_slice(), "' is not supported; using AMQP");
            st.transport = TransportType::AmqpTcp;
        }
    } else if chars_eq_str(key.as_slice(), "usedevelopmentemulator") {
        let v = to_lower(value.as_slice());
        st.emulator = chars_eq_str(v.as_slice(), "true");
    } else if chars_eq_str(key.as_slice(), "stsendpoint") || chars_eq_str(
        key.as_slice(),
        "runtimeport",
    ) || chars_eq_str(key.as_slice(), "managementport") || chars_eq_str(
        key.as_slice(),
        "windowsdomain",
    ) || chars_eq_str(key.as_slice(), "windowsusername") || chars_eq_str(
        key.as_slice(),
        "windowspassword",
    ) {
        push_warning(st, "ignoring legacy on-premises parameter '", raw.as_slice(), "'");
    } else {
        push_warning(st, "ignoring unknown parameter '", key.as_slice(), "'");
    }
}

/// Scans every `;`-separated parameter of `s[lo..hi]`.
fn scan_all(s: &[char], lo: usize, hi: usize) -> (st: ScanState)
    requires
        lo <= hi <= s.len(),
    ensures
        state_view(st) == scan_params(s@.subrange(lo as int, hi as int), initial_scan()),
{
    let mut st = ScanState {
        endpoint: None,
        key_name: None,
        key: None,
        sas_token: None,
        entity_path: None,
        transport: TransportType::AmqpTcp,
        emulator: false,
        warnings: Vec::new(),
    };
    assert(strings_view(st.warnings@) =~= Seq::<Seq<char>>::empty());
    let mut start = lo;
    let mut done = false;
    while !done
        invariant
            lo <= start <= hi,
            hi <= s.len(),
            done ==> state_view(st) == scan_params(s@.subrange(lo as int, hi as int), initial_scan()),
            !done ==> scan_params(s@.subrange(lo as int, hi as int), initial_scan()) == scan_params(
                s@.subrange(start as int, hi as int),
                state_view(st),
            ),
        decreases (hi - start) as int + (if done {
            0int
        } else {
            1int
        }),
    {
        let j = find_char(s, start, hi, ';');
        let ghost rest = s@.subrange(start as int, hi as int);
        let ghost before = state_view(st);
        apply_param(&mut st, s, start, j);
        if j == hi {
            assert(rest =~= s@.subrange(start as int, j as int));
            done = true;
        } else {
            assert(rest.take(j - start) =~= s@.subrange(start as int, j as int));
            assert(rest.skip(j - start + 1) =~= s@.subrange(j + 1, hi as int));
            start = j + 1;
        }
    }
    st
}

fn opt_string(o: Option<Vec<char>>) -> (r: Option<String>)
    ensures
        opt_view(r) == chars_opt(o),
{
    match o {
        Some(v) => Some(string_from_chars(v.as_slice())),
        None => None,
    }
}

impl NamespaceConnection {
    /// Parse a connection string of the form
    /// `Endpoint=sb://ns.servicebus.windows.net/;SharedAccessKeyName=...;SharedAccessKey=...`.
    pub fn parse(input: &str) -> (r: Result<NamespaceConnection, ConnectionStringError>)
        ensures
            match r {
                Ok(c) => spec_parse_connection(input@) == Ok::<ConnectionView, ErrorView>(c@),
                Err(e) => spec_parse_connection(input@) == Err::<ConnectionView, ErrorView>(
                    error_view(e),
                ),
            },
    {
        let cs = str_chars(input);
        let n = cs.len();
        let (ta, tb) = trim_bounds(cs.as_slice(), 0, n);
        let ghost t = cs@.subrange(ta as int, tb as int);
        assert(cs@.subrange(0, n as int) =~= input@);
        if ta == tb {
            return Err(ConnectionStringError::Empty);
        }
        let st = scan_all(cs.as_slice(), ta, tb);
        let ep = match st.endpoint {
            Some(ep) => ep,
            None => {
                return Err(ConnectionStringError::MissingEndpoint);
            },
        };
        let sep = str_chars("://");
        let ep2: Vec<char> = if contains_sub(ep.as_slice(), sep.as_slice()) {
            ep
        } else {
            let mut v = str_chars("sb://");
            push_chars(&mut v, ep.as_slice());
            v
        };
        let ep2s = string_from_chars(ep2.as_slice());
        let url = match url_parse(ep2s.as_str()) {
            Some(u) => u,
            None => {
                return Err(ConnectionStringError::InvalidEndpoint(ep2s));
            },
        };
        let host = match url.host_str() {
            Some(h) => h.to_owned(),
            None => {
                return Err(ConnectionStringError::InvalidEndpoint(ep2s));
            },
        };
        let hc = str_chars(host.as_str());
        let dot = find_char(hc.as_slice(), 0, hc.len(), '.');
        assert(hc@.subrange(0, hc@.len() as int) =~= hc@);
        let namespace = string_from_chars(slice_to_vec(hc.as_slice(), 0, dot).as_slice());
        assert(hc@.subrange(0, dot as int) =~= first_label(host@)) by {
            if dot == hc.len() {
                assert(hc@.subrange(0, dot as int) =~= hc@);
            }
        }
        let credential = match (st.key_name, st.key, st.sas_token) {
            (Some(name), Some(key), token) if name.len() > 0 && key.len() > 0 => {
                Credential::SasKey {
                    key_name: string_from_chars(name.as_slice()),
                    key: SecretString::new(string_from_chars(key.as_slice())),
                }
            },
            (Some(_), _, None) | (_, Some(_), None) => {
                return Err(ConnectionStringError::IncompleteSasKey);
            },
            (_, _, Some(token)) if token.len() > 0 => {
                Credential::SasToken(SecretString::new(string_from_chars(token.as_slice())))
            },
            _ => {
                return Err(ConnectionStringError::MissingCredentials);
            },
        };
        let raw = SecretString::new(string_from_chars(slice_to_vec(cs.as_slice(), ta, tb).as_slice()));
        let conn = NamespaceConnection {
            endpoint: url,
            fully_qualified_namespace: host,
            namespace,
            credential,
            entity_path: opt_string(st.entity_path),
            transport: st.transport,
            use_development_emulator: st.emulator,
            warnings: st.warnings,
            raw,
        };
        assert(spec_parse_connection(input@) == Ok::<ConnectionView, ErrorView>(conn@));
        Ok(conn)
    }

    /// The parsed endpoint.
    pub fn endpoint(&self) -> (r: &Endpoint)
        ensures
            r@ == self@.endpoint,
    {
        &self.endpoint
    }

    /// The namespace's name: the host's first label.
    pub fn namespace(&self) -> (r: &str)
        ensures
            r@ == self@.namespace,
    {
        self.namespace.as_str()
    }

    /// The transport named by the connection string.
    pub fn transport(&self) -> (r: TransportType)
        ensures
            r == self@.transport,
    {
        self.transport
    }

    /// The original connection string, for AMQP clients that consume it verbatim.
    pub fn raw(&self) -> (r: &SecretString)
        ensures
            r@ == self@.raw,
    {
        &self.raw
    }

    /// Base URL for the management REST API (`sb://` becomes `https://`; the
    /// local development emulator serves it over plain `http://`), or `None`
    /// if that text does not parse as a URL.
    pub fn https_base(&self) -> (r: Option<Endpoint>)
        ensures
            endpoint_view(r) == parsed_url(https_base_text(self@)),
    {
        let mut v: Vec<char> = Vec::new();
        if self.use_development_emulator {
            push_str(&mut v, "http");
        } else {
            push_str(&mut v, "https");
        }
        push_str(&mut v, "://");
        push_str(&mut v, self.fully_qualified_namespace.as_str());
        match self.endpoint.port() {
            Some(p) => {
                push_str(&mut v, ":");
                push_decimal(&mut v, p as u64);
            },
            None => {},
        }
        push_str(&mut v, "/");
        let text = string_from_chars(v.as_slice());
        proof {
            assert(text@ =~= https_base_text(self@));
        }
        url_parse(text.as_str())
    }
}

/// The management base URL's text for a parsed connection string.
pub open spec fn https_base_text(c: ConnectionView) -> Seq<char> {
    let scheme = if c.use_development_emulator { "http"@ } else { "https"@ };
    let port = match c.endpoint.3 {
        Some(p) => ":"@ + decimal(p as nat),
        None => Seq::empty(),
    };
    scheme + "://"@ + c.fully_qualified_namespace + port + "/"@
}

// ---- laws --------------------------------------------------------------------------------

/// A `key=value` parameter whose key holds no `=` and is not blank splits at
/// the `=` after the key: the key and the value are the trimmed text on
/// either side of it.
proof fn lemma_param_parts(key: Seq<char>, value: Seq<char>)
    requires
        first_index(key, '=') == -1,
        trim(key).len() > 0,
    ensures
        ({
            let p = trim(key + seq!['='] + value);
            let e = first_index(p, '=');
            &&& p.len() > 0
            &&& e >= 0
            &&& trim(p.take(e)) == trim(key)
            &&& trim(p.skip(e + 1)) == trim(value)
        }),
{
    let s = key + seq!['='] + value;
    crate::text::lemma_trim_start_suffix(key);
    let ts = trim_start(key);
    assert(ts.len() > 0) by {
        if ts.len() == 0 {
            assert(trim_end(ts) =~= ts);
        }
    }
    let i = key.len() - ts.len();
    assert(key[i] == ts[0]);
    assert(s =~= key + (seq!['='] + value));
    crate::text::lemma_trim_start_concat(key, seq!['='] + value, i);
    let a = ts + seq!['='];
    assert(trim_start(s) =~= a + value);
    crate::text::lemma_trim_end_concat(a, value);
    let p = trim(s);
    assert(p =~= ts + seq!['='] + trim_end(value));
    crate::text::lemma_first_index_props(key, '=');
    assert forall|j: int| 0 <= j < ts.len() implies p[j] != '=' by {
        assert(p[j] == ts[j]);
        assert(ts[j] == key[i + j]);
    }
    assert(p[ts.len() as int] == '=');
    lemma_first_index(p, ts.len() as int, '=');
    assert(p.take(ts.len() as int) =~= ts);
    assert(p.skip(ts.len() + 1int) =~= trim_end(value));
    crate::text::lemma_trim_start_idempotent(key);
    crate::text::lemma_trim_of_trim_end(value);
}

/// A parameter's value is all the text after its first `=`, trimmed, so the
/// `=` padding that ends base64 keys is kept.
pub proof fn law_value_is_text_after_first_equals(st: ParamScan, key: Seq<char>, value: Seq<char>)
    requires
        first_index(key, '=') == -1,
        trim(key).len() > 0,
    ensures
        ({
            let k = lower(trim(key));
            let r = param_step(st, key + seq!['='] + value);
            &&& k == "endpoint"@ ==> r == ParamScan { endpoint: Some(trim(value)), ..st }
            &&& k == "sharedaccesskeyname"@ ==> r == ParamScan { key_name: Some(trim(value)), ..st }
            &&& k == "sharedaccesskey"@ ==> r == ParamScan { key: Some(trim(value)), ..st }
            &&& k == "sharedaccesssignature"@ ==> r == ParamScan { sas_token: Some(trim(value)), ..st }
            &&& k == "entitypath"@ ==> r == ParamScan { entity_path: Some(trim(value)), ..st }
        }),
{
    lemma_param_parts(key, value);
    reveal_strlit("endpoint");
    reveal_strlit("sharedaccesskeyname");
    reveal_strlit("sharedaccesskey");
    reveal_strlit("sharedaccesssignature");
    reveal_strlit("entitypath");
}

/// Keys are matched whatever their ASCII letter case and surrounding
/// whitespace: two spellings of one key set the same parameter. (The legacy
/// on-premises keys are left out: their warning quotes the key as written.)
pub proof fn law_keys_ignore_case(st: ParamScan, k1: Seq<char>, k2: Seq<char>, value: Seq<char>)
    requires
        first_index(k1, '=') == -1,
        first_index(k2, '=') == -1,
        trim(k1).len() > 0,
        lower(trim(k1)) == lower(trim(k2)),
        !is_legacy_key(lower(trim(k1))),
    ensures
        param_step(st, k1 + seq!['='] + value) == param_step(st, k2 + seq!['='] + value),
{
    assert(lower(trim(k1)).len() == trim(k1).len());
    assert(lower(trim(k2)).len() == trim(k2).len());
    lemma_param_parts(k1, value);
    lemma_param_parts(k2, value);
}


/// `UseDevelopmentEmulator` (in any letter case) turns the emulator on
/// exactly when its value, trimmed, is `true` in any letter case; any other
/// value, `false` among them, turns it off. Nothing else changes.
pub proof fn law_emulator_only_for_true(st: ParamScan, key: Seq<char>, value: Seq<char>)
    requires
        first_index(key, '=') == -1,
        lower(trim(key)) == "usedevelopmentemulator"@,
    ensures
        param_step(st, key + seq!['='] + value) == (ParamScan {
            emulator: lower(trim(value)) == "true"@,
            ..st
        }),
        lower(trim(value)) == "false"@ ==> !param_step(st, key + seq!['='] + value).emulator,
{
    reveal_strlit("usedevelopmentemulator");
    reveal_strlit("endpoint");
    reveal_strlit("sharedaccesskeyname");
    reveal_strlit("sharedaccesskey");
    reveal_strlit("sharedaccesssignature");
    reveal_strlit("entitypath");
    reveal_strlit("transporttype");
    reveal_strlit("true");
    reveal_strlit("false");
    assert(lower(trim(key)).len() == trim(key).len());
    lemma_param_parts(key, value);
    let k = lower(trim(key));
    assert(k != "endpoint"@ && k != "sharedaccesskeyname"@ && k != "sharedaccesskey"@ && k
        != "sharedaccesssignature"@ && k != "entitypath"@ && k != "transporttype"@) by {
        assert(k.len() == 22);
    }
    if lower(trim(value)) == "false"@ {
        assert(lower(trim(value))[0] != "true"@[0]);
    }
}

} // verus!
