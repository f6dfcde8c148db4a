use ua_client::connection::{
    check_identity, connect_failure_hint, connect_target, endpoint_description_to_info, endpoint_info_from,
    find_server_endpoint, hint_message, is_known_policy, looks_like_cert_trust_error, message_mode_name,
    message_mode_to_security_mode, no_endpoint_message, security_mode_to_message_mode, text_contains,
    transport_url, wants_certificate_hint, warn_insecure_default, ConnectHint, MessageMode, ServerEndpoint, UserTokenKind,
};
use ua_client::types::{AuthMode, AuthSpec, EndpointInfo, SecurityMode};

fn auth(mode: AuthMode, user: &str, cert: &str, key: &str) -> AuthSpec {
    AuthSpec {
        mode,
        username: user.to_string(),
        password: "secret".to_string(),
        cert_path: cert.to_string(),
        key_path: key.to_string(),
    }
}

fn server_endpoint(uri: &str, mode: MessageMode, tokens: Vec<UserTokenKind>) -> ServerEndpoint {
    ServerEndpoint {
        endpoint_url: "opc.tcp://plc:4840".to_string(),
        security_policy_uri: uri.to_string(),
        security_mode: mode,
        security_level: 3,
        user_token_types: tokens,
    }
}

const B256: &str = "http://opcfoundation.org/UA/SecurityPolicy#Basic256Sha256";

#[test]
fn substrings_are_found() {
    assert!(text_contains("hello world", "lo w"));
    assert!(text_contains("abc", ""));
    assert!(text_contains("", ""));
    assert!(!text_contains("ab", "abc"));
    assert!(!text_contains("abcabd", "abe"));
    assert!(text_contains("abcabd", "abd"));
}

#[test]
fn certificate_trouble_is_recognised_in_any_case() {
    assert!(looks_like_cert_trust_error("BadCertificateUntrusted"));
    assert!(looks_like_cert_trust_error("BadSecurityChecksFailed"));
    assert!(looks_like_cert_trust_error("connection REJECTED by peer"));
    assert!(looks_like_cert_trust_error("CertificateValidation failed"));
    assert!(!looks_like_cert_trust_error("BadTimeout"));
    assert_eq!(connect_failure_hint("BadCertificateUriInvalid"), Some(ConnectHint::UriMismatch));
    assert_eq!(connect_failure_hint("BadCertificateUntrusted"), Some(ConnectHint::NotTrusted));
    assert_eq!(connect_failure_hint("BadTcpEndpointUrlInvalid"), None);
    assert!(hint_message(ConnectHint::UriMismatch).contains("urn:FreeOpcUa:ua-client"));
    assert!(hint_message(ConnectHint::NotTrusted).starts_with("server rejected the client certificate"));
}

#[test]
fn credentials_must_be_complete() {
    assert_eq!(check_identity(&auth(AuthMode::Anonymous, "", "", "")), Ok(AuthMode::Anonymous));
    assert_eq!(check_identity(&auth(AuthMode::UserName, "", "", "")), Err("username required".to_string()));
    assert_eq!(check_identity(&auth(AuthMode::UserName, "bob", "", "")), Ok(AuthMode::UserName));
    assert_eq!(
        check_identity(&auth(AuthMode::Certificate, "", "c.der", "")),
        Err("certificate and private-key paths required".to_string())
    );
    assert_eq!(check_identity(&auth(AuthMode::Certificate, "", "c.der", "k.pem")), Ok(AuthMode::Certificate));
}

#[test]
fn connections_ask_for_the_chosen_endpoint() {
    let (uri, mode) = connect_target(None);
    assert_eq!(uri, "http://opcfoundation.org/UA/SecurityPolicy#None");
    assert_eq!(mode, MessageMode::NoSecurity);
    let ep = EndpointInfo {
        endpoint_url: "opc.tcp://plc:4840".to_string(),
        security_policy: "Basic256Sha256".to_string(),
        security_policy_uri: B256.to_string(),
        security_mode: SecurityMode::SignAndEncrypt,
        security_level: 3,
        supports_anonymous: true,
        supports_username: false,
        supports_certificate: false,
    };
    let (uri, mode) = connect_target(Some(&ep));
    assert_eq!(uri, B256);
    assert_eq!(mode, MessageMode::SignAndEncrypt);
    assert!(wants_certificate_hint(mode));
    assert!(!wants_certificate_hint(MessageMode::NoSecurity));
}

#[test]
fn the_first_matching_server_endpoint_is_used() {
    let offered = vec![
        server_endpoint(B256, MessageMode::Sign, vec![]),
        server_endpoint(B256, MessageMode::SignAndEncrypt, vec![]),
        server_endpoint(B256, MessageMode::SignAndEncrypt, vec![]),
    ];
    assert_eq!(find_server_endpoint(&offered, B256, MessageMode::SignAndEncrypt), Some(1));
    assert_eq!(find_server_endpoint(&offered, B256, MessageMode::NoSecurity), None);
    assert_eq!(
        no_endpoint_message("http://x", MessageMode::NoSecurity),
        "server has no endpoint with policy 'http://x' and mode None"
    );
    assert_eq!(message_mode_name(MessageMode::Invalid), "Invalid");
}

#[test]
fn endpoint_descriptions_read_with_short_policy_names() {
    assert!(is_known_policy(B256));
    assert!(is_known_policy("None"));
    assert!(!is_known_policy("http://example.com/policy"));
    let e = server_endpoint(B256, MessageMode::Sign, vec![UserTokenKind::UserName, UserTokenKind::IssuedToken]);
    let info = endpoint_description_to_info(&e);
    assert_eq!(info.security_policy, "Basic256Sha256");
    assert_eq!(info.security_policy_uri, B256);
    assert_eq!(info.endpoint_url, "opc.tcp://plc:4840");
    assert_eq!(info.security_mode, SecurityMode::Sign);
    assert_eq!(info.security_level, 3);
    assert!(!info.supports_anonymous && info.supports_username && !info.supports_certificate);
    let none = server_endpoint("http://opcfoundation.org/UA/SecurityPolicy#None", MessageMode::Invalid, vec![]);
    let info = endpoint_description_to_info(&none);
    assert_eq!(info.security_policy, "None");
    assert_eq!(info.security_mode, SecurityMode::NoSecurity);
    let aes = server_endpoint("http://opcfoundation.org/UA/SecurityPolicy#Aes256_Sha256_RsaPss", MessageMode::Sign, vec![]);
    assert_eq!(endpoint_description_to_info(&aes).security_policy, "Aes256-Sha256-RsaPss");
    assert_eq!(endpoint_info_from(&e, "Short").security_policy, "Short");
}

#[test]
fn security_modes_map_both_ways() {
    for m in [SecurityMode::NoSecurity, SecurityMode::Sign, SecurityMode::SignAndEncrypt] {
        assert_eq!(message_mode_to_security_mode(security_mode_to_message_mode(m)), m);
    }
    assert_eq!(message_mode_to_security_mode(MessageMode::Invalid), SecurityMode::NoSecurity);
}

#[test]
fn the_insecure_default_is_announced() {
    let lines = warn_insecure_default();
    assert_eq!(lines.len(), 6);
    assert_eq!(lines[1], "⚠  INSECURE DEFAULT: server-certificate checks are DISABLED");
    assert_eq!(lines[0], lines[5]);
}

#[test]
fn the_typed_url_carries_the_session() {
    let (url, notice) = transport_url("opc.tcp://plc:4840", "opc.tcp://10.0.0.5:4840");
    assert_eq!(url, "opc.tcp://plc:4840");
    assert_eq!(
        notice.unwrap(),
        "server endpoint URL is opc.tcp://10.0.0.5:4840; forcing transport to typed URL opc.tcp://plc:4840"
    );
    assert_eq!(transport_url("opc.tcp://plc:4840", "opc.tcp://plc:4840"), ("opc.tcp://plc:4840".to_string(), None));
    assert_eq!(transport_url("opc.tcp://plc:4840", ""), ("opc.tcp://plc:4840".to_string(), None));
}
