use sift::backend::{backend_error_from_mgmt, connection_for};
use sift::config::AuthMethod;
use sift::mgmt::MgmtError;
use sift::secrets::SecretString;

#[test]
fn only_connection_string_profiles_connect() {
    let secret = SecretString::from_str(
        "Endpoint=sb://contoso.servicebus.windows.net/;SharedAccessKeyName=root;SharedAccessKey=abc",
    );
    let err = connection_for(&AuthMethod::AzureAd { tenant_id: None }, &secret).err().unwrap();
    assert_eq!(err.message, "Microsoft Entra ID authentication is not implemented yet");
    assert_eq!(err.detail, None);

    let conn = connection_for(&AuthMethod::ConnectionString, &secret).ok().unwrap();
    assert_eq!(conn.fully_qualified_namespace, "contoso.servicebus.windows.net");

    let empty = SecretString::from_str("  ");
    let err = connection_for(&AuthMethod::ConnectionString, &empty).err().unwrap();
    assert_eq!(err.message, "the connection string is empty");
}

#[test]
fn management_failures_keep_non_empty_service_replies_as_detail() {
    let e = MgmtError::Unauthorized { detail: "<Error/>".to_owned() };
    let b = backend_error_from_mgmt(&e);
    assert!(b.message.starts_with("unauthorized"));
    assert_eq!(b.detail.as_deref(), Some("<Error/>"));

    let e = MgmtError::Server { status: 500, detail: String::new() };
    let b = backend_error_from_mgmt(&e);
    assert_eq!(b.message, "the service returned HTTP 500: ");
    assert_eq!(b.detail, None);

    let e = MgmtError::NotFound { path: "q".to_owned() };
    let b = backend_error_from_mgmt(&e);
    assert_eq!(b.message, "'q' was not found");
    assert_eq!(b.detail, None);
}
