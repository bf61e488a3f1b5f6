//! The decisions the backend makes while connecting to a namespace: which
//! credentials it can use, and how failures are reported to the user.

use vstd::prelude::*;
use crate::bridge::BackendError;
use crate::config::AuthMethod;
use crate::connection::{ConnectionView, NamespaceConnection, error_message, spec_parse_connection};
use crate::mgmt::{MgmtError, mgmt_error_message};
use crate::secrets::SecretString;

verus! {

broadcast use vstd::string::group_string_axioms;

/// What connecting with a profile's authentication method and secret
/// yields before any request is made: the parsed connection, or the message
/// of why there is none.
pub open spec fn spec_connection_for(auth: AuthMethod, secret: Seq<char>) -> Result<ConnectionView, Seq<char>> {
    match auth {
        AuthMethod::ConnectionString => match spec_parse_connection(secret) {
            Ok(c) => Ok(c),
            Err(e) => Err(error_message(e)),
        },
        AuthMethod::AzureAd { .. } => Err("Microsoft Entra ID authentication is not implemented yet"@),
    }
}

/// The connection a profile's secret describes. Only connection-string
/// profiles can connect; the secret is then the connection string.
pub fn connection_for(auth: &AuthMethod, secret: &SecretString) -> (r: Result<NamespaceConnection, BackendError>)
    ensures
        match spec_connection_for(*auth, secret@) {
            Ok(c) => r matches Ok(x) && x@ == c,
            Err(m) => r matches Err(e) && e.message@ == m && e.detail is None,
        },
{
    match auth {
        AuthMethod::ConnectionString => {},
        AuthMethod::AzureAd { .. } => {
            return Err(
                BackendError::new("Microsoft Entra ID authentication is not implemented yet".to_owned()),
            );
        },
    }
    match NamespaceConnection::parse(secret.expose()) {
        Ok(c) => Ok(c),
        Err(e) => Err(BackendError::new(e.message())),
    }
}

/// The service's raw reply carried by a management error, where it has one.
pub open spec fn mgmt_detail(e: MgmtError) -> Option<Seq<char>> {
    match e {
        MgmtError::Unauthorized { detail } => Some(detail@),
        MgmtError::Forbidden { detail } => Some(detail@),
        MgmtError::Conflict { detail } => Some(detail@),
        MgmtError::BadRequest { detail } => Some(detail@),
        MgmtError::Throttled { detail } => Some(detail@),
        MgmtError::Server { detail, .. } => Some(detail@),
        _ => None,
    }
}

/// A failed management call as the user sees it: the error's message, with
/// the service's reply as the detail when there is a non-empty one.
pub fn backend_error_from_mgmt(e: &MgmtError) -> (r: BackendError)
    ensures
        r.message@ == mgmt_error_message(*e),
        match mgmt_detail(*e) {
            Some(d) if d.len() > 0 => r.detail matches Some(x) && x@ == d,
            _ => r.detail is None,
        },
{
    let detail: Option<&String> = match e {
        MgmtError::Unauthorized { detail } => Some(detail),
        MgmtError::Forbidden { detail } => Some(detail),
        MgmtError::Conflict { detail } => Some(detail),
        MgmtError::BadRequest { detail } => Some(detail),
        MgmtError::Throttled { detail } => Some(detail),
        MgmtError::Server { detail, .. } => Some(detail),
        _ => None,
    };
    match detail {
        Some(d) => {
            if !d.as_str().is_empty() {
                return BackendError::with_detail(e.message(), d.clone());
            }
            BackendError::new(e.message())
        },
        None => BackendError::new(e.message()),
    }
}

} // verus!
