//! The management API's error conditions and the small decisions the HTTP
//! client makes around its requests.

use vstd::prelude::*;
use crate::connection::Endpoint;
use crate::text::{decimal, push_decimal, push_str, string_from_chars};

verus! {

broadcast use vstd::string::group_string_axioms;

/// Maximum `$top` the service accepts when listing entities.
pub const PAGE_SIZE: usize = 100;

/// The management API version every request names.
pub const API_VERSION: &'static str = "2021-05";

/// Why a management call failed, as the conditions users need to tell apart.
#[derive(Clone, Debug, PartialEq, Eq)]
pub enum MgmtError {
    Unauthorized { detail: String },
    Forbidden { detail: String },
    NotFound { path: String },
    Conflict { detail: String },
    BadRequest { detail: String },
    Throttled { detail: String },
    Server { status: u16, detail: String },
    /// The HTTP request itself failed: its message, and whether it timed out
    /// or could not connect.
    Http { message: String, is_timeout: bool, is_connect: bool },
    /// The response could not be parsed.
    Xml(String),
    /// The management URL is invalid.
    Url(String),
}

/// The error a non-success HTTP status maps to; `detail` is the response
/// body.
pub open spec fn status_error_kind(status: u16) -> int {
    if status == 401 {
        0
    } else if status == 403 {
        1
    } else if status == 404 {
        2
    } else if status == 409 {
        3
    } else if status == 400 {
        4
    } else if status == 429 || status == 503 {
        5
    } else {
        6
    }
}

/// Whether `e` is the error that a response with this status, for this
/// path and with this body, maps to.
pub open spec fn is_status_error(e: MgmtError, status: u16, path: Seq<char>, detail: Seq<char>) -> bool {
    let k = status_error_kind(status);
    if k == 0 {
        e matches MgmtError::Unauthorized { detail: d } && d@ == detail
    } else if k == 1 {
        e matches MgmtError::Forbidden { detail: d } && d@ == detail
    } else if k == 2 {
        e matches MgmtError::NotFound { path: p } && p@ == path
    } else if k == 3 {
        e matches MgmtError::Conflict { detail: d } && d@ == detail
    } else if k == 4 {
        e matches MgmtError::BadRequest { detail: d } && d@ == detail
    } else if k == 5 {
        e matches MgmtError::Throttled { detail: d } && d@ == detail
    } else {
        e matches MgmtError::Server { status: s, detail: d } && s == status && d@ == detail
    }
}

impl MgmtError {
    /// Map a non-success HTTP response (its status code and body) to an
    /// error; `path` names the entity asked for.
    pub fn from_status(status: u16, path: &str, detail: String) -> (r: MgmtError)
        ensures
            status == 401 ==> (r matches MgmtError::Unauthorized { detail: d } && d@ == detail@),
            status == 403 ==> (r matches MgmtError::Forbidden { detail: d } && d@ == detail@),
            status == 404 ==> (r matches MgmtError::NotFound { path: p } && p@ == path@),
            status == 409 ==> (r matches MgmtError::Conflict { detail: d } && d@ == detail@),
            status == 400 ==> (r matches MgmtError::BadRequest { detail: d } && d@ == detail@),
            (status == 429 || status == 503) ==> (r matches MgmtError::Throttled { detail: d }
                && d@ == detail@),
            status_error_kind(status) == 6 ==> (r matches MgmtError::Server { status: s, detail: d }
                && s == status && d@ == detail@),
            is_status_error(r, status, path@, detail@),
    {
        if status == 401 {
            MgmtError::Unauthorized { detail }
        } else if status == 403 {
            MgmtError::Forbidden { detail }
        } else if status == 404 {
            MgmtError::NotFound { path: path.to_owned() }
        } else if status == 409 {
            MgmtError::Conflict { detail }
        } else if status == 400 {
            MgmtError::BadRequest { detail }
        } else if status == 429 || status == 503 {
            MgmtError::Throttled { detail }
        } else {
            MgmtError::Server { status, detail }
        }
    }

    /// Whether retrying the same request may succeed: throttling, server
    /// errors, and requests that timed out or could not connect.
    pub fn is_retryable(&self) -> (r: bool)
        ensures
            r == match *self {
                MgmtError::Throttled { .. } => true,
                MgmtError::Server { status, .. } => status >= 500,
                MgmtError::Http { is_timeout, is_connect, .. } => is_timeout || is_connect,
                _ => false,
            },
    {
        match self {
            MgmtError::Throttled { .. } => true,
            MgmtError::Server { status, .. } => *status >= 500,
            MgmtError::Http { is_timeout, is_connect, .. } => *is_timeout || *is_connect,
            _ => false,
        }
    }

    /// The error's message text.
    pub fn message(&self) -> (r: String)
        ensures
            r@ == mgmt_error_message(*self),
    {
        let mut v: Vec<char> = Vec::new();
        match self {
            MgmtError::Unauthorized { .. } => push_str(
                &mut v,
                "unauthorized: check the SAS key or credential (clock skew also invalidates SAS tokens)",
            ),
            MgmtError::Forbidden { .. } => push_str(
                &mut v,
                "forbidden: the credential is valid but lacks Manage rights",
            ),
            MgmtError::NotFound { path } => {
                push_str(&mut v, "'");
                push_str(&mut v, path.as_str());
                push_str(&mut v, "' was not found");
            },
            MgmtError::Conflict { .. } => push_str(
                &mut v,
                "conflict: the entity already exists or a conflicting operation is in progress",
            ),
            MgmtError::BadRequest { detail } => {
                push_str(&mut v, "the request was rejected as invalid: ");
                push_str(&mut v, detail.as_str());
            },
            MgmtError::Throttled { .. } => push_str(
                &mut v,
                "the service is throttling requests; retry later",
            ),
            MgmtError::Server { status, detail } => {
                push_str(&mut v, "the service returned HTTP ");
                push_decimal(&mut v, *status as u64);
                push_str(&mut v, ": ");
                push_str(&mut v, detail.as_str());
            },
            MgmtError::Http { message, .. } => {
                push_str(&mut v, "request failed: ");
                push_str(&mut v, message.as_str());
            },
            MgmtError::Xml(m) => {
                push_str(&mut v, "could not parse the service response: ");
                push_str(&mut v, m.as_str());
            },
            MgmtError::Url(m) => {
                push_str(&mut v, "invalid management URL: ");
                push_str(&mut v, m.as_str());
            },
        }
        string_from_chars(v.as_slice())
    }
}

pub open spec fn mgmt_error_message(e: MgmtError) -> Seq<char> {
    match e {
        MgmtError::Unauthorized { .. } => "unauthorized: check the SAS key or credential (clock skew also invalidates SAS tokens)"@,
        MgmtError::Forbidden { .. } => "forbidden: the credential is valid but lacks Manage rights"@,
        MgmtError::NotFound { path } => "'"@ + path@ + "' was not found"@,
        MgmtError::Conflict { .. } => "conflict: the entity already exists or a conflicting operation is in progress"@,
        MgmtError::BadRequest { detail } => "the request was rejected as invalid: "@ + detail@,
        MgmtError::Throttled { .. } => "the service is throttling requests; retry later"@,
        MgmtError::Server { status, detail } => "the service returned HTTP "@ + crate::text::decimal(
            status as nat,
        ) + ": "@ + detail@,
        MgmtError::Http { message, .. } => "request failed: "@ + message@,
        MgmtError::Xml(m) => "could not parse the service response: "@ + m@,
        MgmtError::Url(m) => "invalid management URL: "@ + m@,
    }
}

/// The management path of a subscription.
pub fn subscription_path(topic: &str, name: &str) -> (r: String)
    ensures
        r@ == topic@ + "/subscriptions/"@ + name@,
{
    let mut v: Vec<char> = Vec::new();
    push_str(&mut v, topic);
    push_str(&mut v, "/subscriptions/");
    push_str(&mut v, name);
    string_from_chars(v.as_slice())
}

/// A GET's parsed entity, or `NotFound`: the service answers a GET for an
/// entity that does not exist with an empty feed, not with 404.
pub fn found<T>(parsed: Option<T>, path: &str) -> (r: Result<T, MgmtError>)
    ensures
        match parsed {
            Some(v) => r == Ok::<T, MgmtError>(v),
            None => (r matches Err(MgmtError::NotFound { path: p }) && p@ == path@),
        },
{
    match parsed {
        Some(v) => Ok(v),
        None => Err(MgmtError::NotFound { path: path.to_owned() }),
    }
}

/// A create or update response's entity: the service must echo it back.
pub fn returned<T>(parsed: Option<T>) -> (r: Result<T, MgmtError>)
    ensures
        match parsed {
            Some(v) => r == Ok::<T, MgmtError>(v),
            None => (r matches Err(MgmtError::Xml(m))
                && m@ == "the service response did not contain an entity description"@),
        },
{
    match parsed {
        Some(v) => Ok(v),
        None => Err(
            MgmtError::Xml("the service response did not contain an entity description".to_owned()),
        ),
    }
}

/// Where listing continues after a page: the next `$skip`, or `None` once a
/// page came back short (the last page).
pub fn next_page_skip(skip: usize, fetched: usize) -> (r: Option<usize>)
    requires
        skip + PAGE_SIZE <= usize::MAX,
    ensures
        fetched < PAGE_SIZE ==> r is None,
        fetched >= PAGE_SIZE ==> r == Some((skip + PAGE_SIZE) as usize),
{
    if fetched < PAGE_SIZE {
        None
    } else {
        Some(skip + PAGE_SIZE)
    }
}

// ---- requests ------------------------------------------------------------------------

/// Whether an HTTP status is a success (`2xx`).
pub open spec fn is_success(status: u16) -> bool {
    200 <= status && status <= 299
}

/// What a management response means: its body on success, else the error
/// its status maps to.
pub fn response_outcome(status: u16, path: &str, body: String) -> (r: Result<String, MgmtError>)
    ensures
        is_success(status) ==> (r matches Ok(b) && b@ == body@),
        !is_success(status) ==> (r matches Err(e) && is_status_error(e, status, path@, body@)),
{
    if 200 <= status && status <= 299 {
        Ok(body)
    } else {
        Err(MgmtError::from_status(status, path, body))
    }
}

/// A request URL, held as the plain values the client reads: its
/// serialization, scheme, host and path.
#[derive(Clone, Debug, PartialEq, Eq)]
pub struct RequestUrl {
    serialization: String,
    scheme: String,
    host: Option<String>,
    path: String,
}

pub open spec fn host_view(o: Option<String>) -> Option<Seq<char>> {
    match o {
        Some(s) => Some(s@),
        None => None,
    }
}

impl View for RequestUrl {
    type V = (Seq<char>, Seq<char>, Option<Seq<char>>, Seq<char>);

    closed spec fn view(&self) -> Self::V {
        (self.serialization@, self.scheme@, host_view(self.host), self.path@)
    }
}

impl RequestUrl {
    /// The serialized URL.
    pub fn as_str(&self) -> (r: &str)
        ensures
            r@ == self@.0,
    {
        self.serialization.as_str()
    }
}

pub open spec fn pairs_view(q: Seq<(String, String)>) -> Seq<(Seq<char>, Seq<char>)> {
    q.map_values(|kv: (String, String)| (kv.0@, kv.1@))
}

/// What the `url` crate makes of a base URL, a relative path joined onto it
/// and query pairs appended to the result: the URL's serialization, scheme,
/// host and path, or the parse error's message.
pub uninterp spec fn joined_url(
    base: Seq<char>,
    path: Seq<char>,
    query: Seq<(Seq<char>, Seq<char>)>,
) -> Result<(Seq<char>, Seq<char>, Option<Seq<char>>, Seq<char>), Seq<char>>;

pub open spec fn request_url_view(r: Result<RequestUrl, String>) -> Result<
    (Seq<char>, Seq<char>, Option<Seq<char>>, Seq<char>),
    Seq<char>,
> {
    match r {
        Ok(u) => Ok(u@),
        Err(m) => Err(m@),
    }
}

/// `url::Url::parse` of the base, `Url::join` of the path, then
/// `query_pairs_mut().extend_pairs` with the query; read back through
/// `as_str`, `scheme`, `host_str` and `path`. A parse error is reported by
/// its message.
#[verifier::external_body]
fn url_join_query(base: &str, path: &str, query: &[(String, String)]) -> (r: Result<RequestUrl, String>)
    ensures
        request_url_view(r) == joined_url(base@, path@, pairs_view(query@)),
{
    match url::Url::parse(base).and_then(|b| b.join(path)) {
        Ok(mut url) => {
            url.query_pairs_mut().extend_pairs(query.iter().map(|kv| (kv.0.as_str(), kv.1.as_str())));
            let host = url.host_str().map(|h| h.to_owned());
            Ok(RequestUrl { serialization: url.as_str().to_owned(), scheme: url.scheme().to_owned(), host, path: url.path().to_owned() })
        },
        Err(e) => Err(e.to_string()),
    }
}

/// The query every request carries (`api-version`) followed by its own.
pub open spec fn full_query(query: Seq<(Seq<char>, Seq<char>)>) -> Seq<(Seq<char>, Seq<char>)> {
    seq![("api-version"@, "2021-05"@)] + query
}

/// The URL of a management path under the base, with the API version and
/// the given query pairs; an invalid URL is reported as `MgmtError::Url`.
pub fn url_for(base: &Endpoint, path: &str, query: &[(String, String)]) -> (r: Result<
    RequestUrl,
    MgmtError,
>)
    ensures
        match joined_url(base@.0, path@, full_query(pairs_view(query@))) {
            Ok(u) => r matches Ok(x) && x@ == u,
            Err(m) => r matches Err(MgmtError::Url(e)) && e@ == m,
        },
{
    let mut pairs: Vec<(String, String)> = Vec::new();
    pairs.push(("api-version".to_owned(), API_VERSION.to_owned()));
    let mut i: usize = 0;
    while i < query.len()
        invariant
            i <= query.len(),
            pairs_view(pairs@) == full_query(pairs_view(query@.take(i as int))),
        decreases query.len() - i,
    {
        let k = query[i].0.clone();
        let v = query[i].1.clone();
        let ghost before = pairs@;
        pairs.push((k, v));
        proof {
            assert(pairs@ =~= before.push((k, v)));
            assert(pairs_view(before.push((k, v))) =~= pairs_view(before).push((k@, v@)));
            assert(query@.take(i + 1) =~= query@.take(i as int).push(query@[i as int]));
            assert(pairs_view(query@.take(i + 1)) =~= pairs_view(query@.take(i as int)).push((query@[i as int].0@, query@[i as int].1@)));
        }
        i = i + 1;
        assert(pairs_view(pairs@) =~= full_query(pairs_view(query@.take(i as int))));
    }
    assert(query@.take(i as int) =~= query@);
    match url_join_query(base.as_str(), path, pairs.as_slice()) {
        Ok(u) => Ok(u),
        Err(m) => Err(MgmtError::Url(m)),
    }
}

/// The audience a SAS token is minted for: scheme, host and path of the
/// request URL, without its query.
pub open spec fn spec_resource_uri(u: (Seq<char>, Seq<char>, Option<Seq<char>>, Seq<char>)) -> Seq<char> {
    let host = match u.2 {
        Some(h) => h,
        None => Seq::empty(),
    };
    u.1 + "://"@ + host + u.3
}

pub fn resource_uri(url: &RequestUrl) -> (r: String)
    ensures
        r@ == spec_resource_uri(url@),
{
    let mut v: Vec<char> = Vec::new();
    push_str(&mut v, url.scheme.as_str());
    push_str(&mut v, "://");
    match &url.host {
        Some(h) => push_str(&mut v, h.as_str()),
        None => {},
    }
    push_str(&mut v, url.path.as_str());
    string_from_chars(v.as_slice())
}

/// The paging query of a listing: `$skip` and `$top` (the page size).
pub fn page_query(skip: usize) -> (r: Vec<(String, String)>)
    ensures
        pairs_view(r@) == seq![("$skip"@, decimal(skip as nat)), ("$top"@, "100"@)],
{
    let mut s: Vec<char> = Vec::new();
    push_decimal(&mut s, skip as u64);
    let mut r: Vec<(String, String)> = Vec::new();
    r.push(("$skip".to_owned(), string_from_chars(s.as_slice())));
    r.push(("$top".to_owned(), "100".to_owned()));
    assert(pairs_view(r@) =~= seq![("$skip"@, decimal(skip as nat)), ("$top"@, "100"@)]);
    r
}

} // verus!
