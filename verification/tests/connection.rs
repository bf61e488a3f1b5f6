use sift::connection::{ConnectionStringError, Credential, NamespaceConnection, TransportType};

const FULL: &str = "Endpoint=sb://contoso.servicebus.windows.net/;\
    SharedAccessKeyName=RootManageSharedAccessKey;SharedAccessKey=abc123def456==";

fn parse_ok(s: &str) -> NamespaceConnection {
    match NamespaceConnection::parse(s) {
        Ok(c) => c,
        Err(e) => panic!("parse failed: {e:?}"),
    }
}

fn parse_err(s: &str) -> ConnectionStringError {
    match NamespaceConnection::parse(s) {
        Ok(_) => panic!("parse unexpectedly succeeded"),
        Err(e) => e,
    }
}

#[test]
fn parses_standard_sas_connection_string() {
    let conn = parse_ok(FULL);
    assert_eq!(conn.fully_qualified_namespace, "contoso.servicebus.windows.net");
    assert_eq!(conn.namespace, "contoso");
    assert_eq!(conn.transport, TransportType::AmqpTcp);
    assert!(conn.entity_path.is_none());
    assert!(conn.warnings.is_empty());
    let Credential::SasKey { key_name, key } = &conn.credential else {
        panic!("expected SasKey credential");
    };
    assert_eq!(key_name, "RootManageSharedAccessKey");
    // The '=' padding after the first '=' must be preserved.
    assert_eq!(key.expose(), "abc123def456==");
}

#[test]
fn keys_are_case_insensitive_and_entity_path_is_kept() {
    let conn = parse_ok(
        "ENDPOINT=sb://c.servicebus.windows.net;sharedaccesskeyname=n;\
         SHAREDACCESSKEY=k;EntityPath=orders;TransportType=AmqpWebSockets",
    );
    assert_eq!(conn.entity_path.as_deref(), Some("orders"));
    assert_eq!(conn.transport, TransportType::AmqpWebSockets);
}

#[test]
fn missing_scheme_gets_sb_prefix() {
    let conn = parse_ok(
        "Endpoint=contoso.servicebus.windows.net;SharedAccessKeyName=n;SharedAccessKey=k",
    );
    assert_eq!(conn.endpoint.scheme(), "sb");
    assert_eq!(conn.namespace, "contoso");
}

#[test]
fn presigned_sas_token_is_accepted() {
    let conn = parse_ok(
        "Endpoint=sb://c.servicebus.windows.net/;\
         SharedAccessSignature=SharedAccessSignature sr=x&sig=y&se=1&skn=n",
    );
    assert!(matches!(conn.credential, Credential::SasToken(_)));
}

#[test]
fn net_messaging_transport_falls_back_to_amqp_with_warning() {
    let conn = parse_ok(
        "Endpoint=sb://c.servicebus.windows.net/;SharedAccessKeyName=n;\
         SharedAccessKey=k;TransportType=NetMessaging",
    );
    assert_eq!(conn.transport, TransportType::AmqpTcp);
    assert_eq!(conn.warnings.len(), 1);
    assert!(conn.warnings[0].contains("netmessaging"));
}

#[test]
fn missing_endpoint_is_rejected() {
    let err = parse_err("SharedAccessKeyName=n;SharedAccessKey=k");
    assert_eq!(err, ConnectionStringError::MissingEndpoint);
}

#[test]
fn key_name_without_key_is_rejected() {
    let err = parse_err("Endpoint=sb://c.servicebus.windows.net/;SharedAccessKeyName=n");
    assert_eq!(err, ConnectionStringError::IncompleteSasKey);
}

#[test]
fn no_credentials_is_rejected() {
    let err = parse_err("Endpoint=sb://c.servicebus.windows.net/");
    assert_eq!(err, ConnectionStringError::MissingCredentials);
}

#[test]
fn legacy_and_unknown_parameters_produce_warnings() {
    let conn = parse_ok(
        "Endpoint=sb://c.servicebus.windows.net/;SharedAccessKeyName=n;SharedAccessKey=k;\
         StsEndpoint=https://x;RuntimePort=1;Frobnicate=y",
    );
    assert_eq!(conn.warnings.len(), 3);
}

#[test]
fn https_base_maps_sb_to_https() {
    let conn = parse_ok(FULL);
    assert_eq!(
        conn.https_base().unwrap().as_str(),
        "https://contoso.servicebus.windows.net/"
    );
}

#[test]
fn emulator_uses_http_management_base() {
    let conn = parse_ok(
        "Endpoint=sb://localhost;SharedAccessKeyName=n;SharedAccessKey=k;\
         UseDevelopmentEmulator=true",
    );
    assert!(conn.use_development_emulator);
    assert_eq!(conn.https_base().unwrap().as_str(), "http://localhost/");
}

#[test]
fn empty_and_blank_strings_are_rejected() {
    assert_eq!(parse_err(""), ConnectionStringError::Empty);
    assert_eq!(parse_err("  \t "), ConnectionStringError::Empty);
}

#[test]
fn invalid_endpoint_names_the_endpoint() {
    let err = parse_err("Endpoint=sb://host:port;SharedAccessKeyName=n;SharedAccessKey=k");
    assert_eq!(
        err,
        ConnectionStringError::InvalidEndpoint("sb://host:port".to_owned())
    );
    assert_eq!(err.message(), "the endpoint 'sb://host:port' is not a valid URI");
}

#[test]
fn explicit_port_is_kept_in_the_management_base() {
    let conn = parse_ok("Endpoint=sb://localhost:5300;SharedAccessKeyName=n;SharedAccessKey=k");
    assert_eq!(conn.endpoint.port(), Some(5300));
    assert_eq!(conn.https_base().unwrap().as_str(), "https://localhost:5300/");
}

#[test]
fn malformed_parameters_are_reported_and_raw_is_trimmed() {
    let conn = parse_ok("  Endpoint=sb://a.b/;junk;SharedAccessKeyName=n;SharedAccessKey=k  ");
    assert_eq!(conn.warnings, vec!["ignoring malformed parameter 'junk'".to_owned()]);
    assert_eq!(
        conn.raw().expose(),
        "Endpoint=sb://a.b/;junk;SharedAccessKeyName=n;SharedAccessKey=k"
    );
    assert_eq!(conn.namespace, "a");
}

#[test]
fn later_parameters_override_earlier_ones() {
    let conn = parse_ok(
        "Endpoint=sb://first.example/;Endpoint=sb://second.example/;\
         SharedAccessKeyName=n;SharedAccessKey=k",
    );
    assert_eq!(conn.fully_qualified_namespace, "second.example");
}
