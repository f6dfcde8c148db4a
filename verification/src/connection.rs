//! The decisions the client makes around a connection: which endpoint to
//! ask for, whether the credentials are complete, how a server's endpoint
//! description reads, and what a failed connection hints at.
use vstd::prelude::*;
use crate::text::{chars_of, push_str, text_eq};
use crate::types::{AuthMode, AuthSpec, EndpointInfo, SecurityMode};
use opcua::crypto::SecurityPolicy;

verus! {

/// The application name the client presents to servers.
pub const APPLICATION_NAME: &'static str = "Rust OPC UA Client from FreeOpcUa";
/// The application URI the client presents to servers.
pub const APPLICATION_URI: &'static str = "urn:FreeOpcUa:ua-client";

/// Does `n` occur in `h` as a contiguous piece?
pub open spec fn contains_text(h: Seq<char>, n: Seq<char>) -> bool {
    exists|i: int| 0 <= i && i + n.len() <= h.len() && #[trigger] h.subrange(i, i + n.len()) == n
}

/// Does `ns` occur in `hs` at position `i`?
fn matches_at(hs: &Vec<char>, ns: &Vec<char>, i: usize) -> (r: bool)
    requires
        i + ns@.len() <= hs@.len(),
    ensures
        r == (hs@.subrange(i as int, i + ns@.len()) == ns@),
{
    let hl = hs.len();
    let mut j: usize = 0;
    while j < ns.len()
        invariant
            hl == hs@.len(),
            i + ns@.len() <= hs@.len(),
            0 <= j <= ns@.len(),
            forall|m: int| 0 <= m < j ==> hs@[i + m] == ns@[m],
        decreases ns.len() - j,
    {
        if hs[i + j] != ns[j] {
            assert(hs@.subrange(i as int, i + ns@.len())[j as int] != ns@[j as int]);
            return false;
        }
        j = j + 1;
    }
    assert(hs@.subrange(i as int, i + ns@.len()) =~= ns@);
    true
}

/// Does `n` occur in `h`?
pub fn text_contains(h: &str, n: &str) -> (r: bool)
    ensures
        r == contains_text(h@, n@),
{
    let hs = chars_of(h);
    let ns = chars_of(n);
    if ns.len() > hs.len() {
        proof {
            assert forall|i: int| 0 <= i && i + n@.len() <= h@.len() implies #[trigger] h@.subrange(i, i + n@.len()) != n@ by {}
        }
        return false;
    }
    let last = hs.len() - ns.len();
    let mut i: usize = 0;
    loop
        invariant
            hs@ == h@,
            ns@ == n@,
            ns@.len() <= hs@.len(),
            last == hs@.len() - ns@.len(),
            0 <= i <= last,
            forall|k: int| 0 <= k < i ==> #[trigger] h@.subrange(k, k + n@.len()) != n@,
        decreases last - i,
    {
        if matches_at(&hs, &ns, i) {
            return true;
        }
        if i == last {
            proof {
                assert forall|k: int| 0 <= k && k + n@.len() <= h@.len() implies #[trigger] h@.subrange(k, k + n@.len()) != n@ by {
                    if k < i {
                    } else {
                        assert(k == i);
                    }
                }
            }
            return false;
        }
        i = i + 1;
    }
}

/// The lowercase form of a text, as `str::to_lowercase` gives it.
pub uninterp spec fn lowercase_text(s: Seq<char>) -> Seq<char>;

/// `str::to_lowercase`.
#[verifier::external_body]
fn to_lowercase(s: &str) -> (r: String)
    ensures
        r@ == lowercase_text(s@),
{
    s.to_lowercase()
}

/// The words of a lowercase error text that point at a certificate the
/// server did not trust.
pub open spec fn names_trust_failure(lower: Seq<char>) -> bool {
    ||| contains_text(lower, "badsecurity"@)
    ||| contains_text(lower, "badcertificate"@)
    ||| contains_text(lower, "certificatevalidation"@)
    ||| contains_text(lower, "untrusted"@)
    ||| contains_text(lower, "rejected"@)
}

/// Does an error text look like the server refused the client certificate?
pub fn looks_like_cert_trust_error(msg: &str) -> (r: bool)
    ensures
        r == names_trust_failure(lowercase_text(msg@)),
{
    let lower = to_lowercase(msg);
    let l = lower.as_str();
    text_contains(l, "badsecurity") || text_contains(l, "badcertificate")
        || text_contains(l, "certificatevalidation") || text_contains(l, "untrusted")
        || text_contains(l, "rejected")
}

/// What a failed connection suggests about the client certificate.
#[derive(PartialEq, Eq, Structural, Clone, Copy, Debug)]
pub enum ConnectHint {
    /// The certificate names another application URI.
    UriMismatch,
    /// The server does not trust the certificate.
    NotTrusted,
}

/// The hint for a connection error text.
pub open spec fn hint_of(msg: Seq<char>) -> Option<ConnectHint> {
    let lower = lowercase_text(msg);
    if contains_text(lower, "uriinvalid"@) {
        Some(ConnectHint::UriMismatch)
    } else if names_trust_failure(lowercase_text(lower)) {
        Some(ConnectHint::NotTrusted)
    } else {
        None
    }
}

/// Reads a connection error for a certificate problem.
pub fn connect_failure_hint(msg: &str) -> (r: Option<ConnectHint>)
    ensures
        r == hint_of(msg@),
{
    let lower = to_lowercase(msg);
    if text_contains(lower.as_str(), "uriinvalid") {
        Some(ConnectHint::UriMismatch)
    } else if looks_like_cert_trust_error(lower.as_str()) {
        Some(ConnectHint::NotTrusted)
    } else {
        None
    }
}

/// The advice logged for a hint.
pub open spec fn hint_text(h: ConnectHint) -> Seq<char> {
    match h {
        ConnectHint::UriMismatch => "certificate URI mismatch (BadCertificateUriInvalid). Delete the pki/ folder and reconnect to regenerate the cert with the current application URI \"urn:FreeOpcUa:ua-client\"."@,
        ConnectHint::NotTrusted => "server rejected the client certificate. Mark pki/own/cert.der as trusted in the server's PKI store and try again."@,
    }
}

/// The advice for a hint.
pub fn hint_message(h: ConnectHint) -> (r: &'static str)
    ensures
        r@ == hint_text(h),
{
    match h {
        ConnectHint::UriMismatch => "certificate URI mismatch (BadCertificateUriInvalid). Delete the pki/ folder and reconnect to regenerate the cert with the current application URI \"urn:FreeOpcUa:ua-client\".",
        ConnectHint::NotTrusted => "server rejected the client certificate. Mark pki/own/cert.der as trusted in the server's PKI store and try again.",
    }
}

/// The lines of the warning that server-certificate checks are off.
pub fn warn_insecure_default() -> (lines: Vec<&'static str>)
    ensures
        lines@.len() == 6,
        lines@[0]@ == "════════════════════════════════════════════════════════════════"@,
        lines@[1]@ == "⚠  INSECURE DEFAULT: server-certificate checks are DISABLED"@,
        lines@[2]@ == "   — time validity, hostname and application-URI not verified"@,
        lines@[3]@ == "   — connections will succeed against expired / impersonating"@,
        lines@[4]@ == "     servers. Acceptable on trusted networks only."@,
        lines@[5]@ == "════════════════════════════════════════════════════════════════"@,
{
    let mut lines: Vec<&'static str> = Vec::new();
    lines.push("════════════════════════════════════════════════════════════════");
    lines.push("⚠  INSECURE DEFAULT: server-certificate checks are DISABLED");
    lines.push("   — time validity, hostname and application-URI not verified");
    lines.push("   — connections will succeed against expired / impersonating");
    lines.push("     servers. Acceptable on trusted networks only.");
    lines.push("════════════════════════════════════════════════════════════════");
    lines
}

/// Whether the credentials are complete, and the error when they are not.
pub open spec fn identity_check(auth: AuthSpec) -> Result<AuthMode, Seq<char>> {
    match auth.mode {
        AuthMode::Anonymous => Ok(AuthMode::Anonymous),
        AuthMode::UserName => if auth.username@.len() == 0 {
            Err("username required"@)
        } else {
            Ok(AuthMode::UserName)
        },
        AuthMode::Certificate => if auth.cert_path@.len() == 0 || auth.key_path@.len() == 0 {
            Err("certificate and private-key paths required"@)
        } else {
            Ok(AuthMode::Certificate)
        },
    }
}

/// Checks that the credentials are complete before a token is built from
/// them; gives the kind of token to build.
pub fn check_identity(auth: &AuthSpec) -> (r: Result<AuthMode, String>)
    ensures
        match r {
            Ok(m) => identity_check(*auth) == Ok::<AuthMode, Seq<char>>(m),
            Err(e) => identity_check(*auth) == Err::<AuthMode, Seq<char>>(e@),
        },
{
    match auth.mode {
        AuthMode::Anonymous => Ok(AuthMode::Anonymous),
        AuthMode::UserName => {
            if auth.username.as_str().is_empty() {
                Err(String::from_str("username required"))
            } else {
                Ok(AuthMode::UserName)
            }
        },
        AuthMode::Certificate => {
            if auth.cert_path.as_str().is_empty() || auth.key_path.as_str().is_empty() {
                Err(String::from_str("certificate and private-key paths required"))
            } else {
                Ok(AuthMode::Certificate)
            }
        },
    }
}

/// The security policies `opcua::crypto::SecurityPolicy` knows.
#[derive(PartialEq, Eq, Structural, Clone, Copy, Debug)]
pub enum PolicyKind {
    Unknown,
    NoSecurity,
    Aes128Sha256RsaOaep,
    Basic256Sha256,
    Aes256Sha256RsaPss,
    Basic128Rsa15,
    Basic256,
}

/// The policy a text names (`SecurityPolicy::from_str`): its short name or
/// its URI; any other text is `Unknown`.
pub open spec fn policy_of_text(s: Seq<char>) -> PolicyKind {
    if s == "None"@ || s == "http://opcfoundation.org/UA/SecurityPolicy#None"@ {
        PolicyKind::NoSecurity
    } else if s == "Basic128Rsa15"@ || s == "http://opcfoundation.org/UA/SecurityPolicy#Basic128Rsa15"@ {
        PolicyKind::Basic128Rsa15
    } else if s == "Basic256"@ || s == "http://opcfoundation.org/UA/SecurityPolicy#Basic256"@ {
        PolicyKind::Basic256
    } else if s == "Basic256Sha256"@ || s == "http://opcfoundation.org/UA/SecurityPolicy#Basic256Sha256"@ {
        PolicyKind::Basic256Sha256
    } else if s == "Aes128-Sha256-RsaOaep"@ || s == "http://opcfoundation.org/UA/SecurityPolicy#Aes128_Sha256_RsaOaep"@ {
        PolicyKind::Aes128Sha256RsaOaep
    } else if s == "Aes256-Sha256-RsaPss"@ || s == "http://opcfoundation.org/UA/SecurityPolicy#Aes256_Sha256_RsaPss"@ {
        PolicyKind::Aes256Sha256RsaPss
    } else {
        PolicyKind::Unknown
    }
}

/// The short name of a known policy (`SecurityPolicy::to_str`).
pub open spec fn policy_name_text(p: PolicyKind) -> Seq<char> {
    match p {
        PolicyKind::Unknown => Seq::empty(),
        PolicyKind::NoSecurity => "None"@,
        PolicyKind::Aes128Sha256RsaOaep => "Aes128-Sha256-RsaOaep"@,
        PolicyKind::Basic256Sha256 => "Basic256Sha256"@,
        PolicyKind::Aes256Sha256RsaPss => "Aes256-Sha256-RsaPss"@,
        PolicyKind::Basic128Rsa15 => "Basic128Rsa15"@,
        PolicyKind::Basic256 => "Basic256"@,
    }
}

/// The URI of a known policy (`SecurityPolicy::to_uri`).
pub open spec fn policy_uri_text(p: PolicyKind) -> Seq<char> {
    match p {
        PolicyKind::Unknown => Seq::empty(),
        PolicyKind::NoSecurity => "http://opcfoundation.org/UA/SecurityPolicy#None"@,
        PolicyKind::Aes128Sha256RsaOaep => "http://opcfoundation.org/UA/SecurityPolicy#Aes128_Sha256_RsaOaep"@,
        PolicyKind::Basic256Sha256 => "http://opcfoundation.org/UA/SecurityPolicy#Basic256Sha256"@,
        PolicyKind::Aes256Sha256RsaPss => "http://opcfoundation.org/UA/SecurityPolicy#Aes256_Sha256_RsaPss"@,
        PolicyKind::Basic128Rsa15 => "http://opcfoundation.org/UA/SecurityPolicy#Basic128Rsa15"@,
        PolicyKind::Basic256 => "http://opcfoundation.org/UA/SecurityPolicy#Basic256"@,
    }
}

/// `SecurityPolicy::from_str`, which reads a short name or a URI and gives
/// `Unknown` for any other text (it never fails).
#[verifier::external_body]
fn security_policy_from_text(s: &str) -> (p: PolicyKind)
    ensures
        p == policy_of_text(s@),
{
    match <SecurityPolicy as std::str::FromStr>::from_str(s) {
        Ok(SecurityPolicy::Unknown) | Err(()) => PolicyKind::Unknown,
        Ok(SecurityPolicy::None) => PolicyKind::NoSecurity,
        Ok(SecurityPolicy::Aes128Sha256RsaOaep) => PolicyKind::Aes128Sha256RsaOaep,
        Ok(SecurityPolicy::Basic256Sha256) => PolicyKind::Basic256Sha256,
        Ok(SecurityPolicy::Aes256Sha256RsaPss) => PolicyKind::Aes256Sha256RsaPss,
        Ok(SecurityPolicy::Basic128Rsa15) => PolicyKind::Basic128Rsa15,
        Ok(SecurityPolicy::Basic256) => PolicyKind::Basic256,
    }
}

/// `SecurityPolicy::to_str`: the short name of a known policy (it panics
/// on `Unknown`, which `requires` leaves out).
#[verifier::external_body]
fn security_policy_name(p: PolicyKind) -> (r: &'static str)
    requires
        p != PolicyKind::Unknown,
    ensures
        r@ == policy_name_text(p),
{
    let q = match p {
        PolicyKind::Unknown => SecurityPolicy::Unknown,
        PolicyKind::NoSecurity => SecurityPolicy::None,
        PolicyKind::Aes128Sha256RsaOaep => SecurityPolicy::Aes128Sha256RsaOaep,
        PolicyKind::Basic256Sha256 => SecurityPolicy::Basic256Sha256,
        PolicyKind::Aes256Sha256RsaPss => SecurityPolicy::Aes256Sha256RsaPss,
        PolicyKind::Basic128Rsa15 => SecurityPolicy::Basic128Rsa15,
        PolicyKind::Basic256 => SecurityPolicy::Basic256,
    };
    q.to_str()
}

/// `SecurityPolicy::to_uri`: the URI of a known policy (it panics on
/// `Unknown`, which `requires` leaves out).
#[verifier::external_body]
fn security_policy_uri(p: PolicyKind) -> (r: &'static str)
    requires
        p != PolicyKind::Unknown,
    ensures
        r@ == policy_uri_text(p),
{
    let q = match p {
        PolicyKind::Unknown => SecurityPolicy::Unknown,
        PolicyKind::NoSecurity => SecurityPolicy::None,
        PolicyKind::Aes128Sha256RsaOaep => SecurityPolicy::Aes128Sha256RsaOaep,
        PolicyKind::Basic256Sha256 => SecurityPolicy::Basic256Sha256,
        PolicyKind::Aes256Sha256RsaPss => SecurityPolicy::Aes256Sha256RsaPss,
        PolicyKind::Basic128Rsa15 => SecurityPolicy::Basic128Rsa15,
        PolicyKind::Basic256 => SecurityPolicy::Basic256,
    };
    q.to_uri()
}

/// The security mode of a message (`opcua::types::MessageSecurityMode`).
#[derive(PartialEq, Eq, Structural, Clone, Copy, Debug)]
pub enum MessageMode {
    Invalid,
    NoSecurity,
    Sign,
    SignAndEncrypt,
}

/// The message mode of a security mode.
pub open spec fn message_mode_of(m: SecurityMode) -> MessageMode {
    match m {
        SecurityMode::NoSecurity => MessageMode::NoSecurity,
        SecurityMode::Sign => MessageMode::Sign,
        SecurityMode::SignAndEncrypt => MessageMode::SignAndEncrypt,
    }
}

/// The security mode of a message mode; `Invalid` reads as no security.
pub open spec fn security_mode_of(m: MessageMode) -> SecurityMode {
    match m {
        MessageMode::Sign => SecurityMode::Sign,
        MessageMode::SignAndEncrypt => SecurityMode::SignAndEncrypt,
        _ => SecurityMode::NoSecurity,
    }
}

pub fn security_mode_to_message_mode(m: SecurityMode) -> (r: MessageMode)
    ensures
        r == message_mode_of(m),
{
    match m {
        SecurityMode::NoSecurity => MessageMode::NoSecurity,
        SecurityMode::Sign => MessageMode::Sign,
        SecurityMode::SignAndEncrypt => MessageMode::SignAndEncrypt,
    }
}

pub fn message_mode_to_security_mode(m: MessageMode) -> (r: SecurityMode)
    ensures
        r == security_mode_of(m),
{
    match m {
        MessageMode::Sign => SecurityMode::Sign,
        MessageMode::SignAndEncrypt => SecurityMode::SignAndEncrypt,
        _ => SecurityMode::NoSecurity,
    }
}

/// The `Debug` name of a message mode.
pub open spec fn message_mode_text(m: MessageMode) -> Seq<char> {
    match m {
        MessageMode::Invalid => "Invalid"@,
        MessageMode::NoSecurity => "None"@,
        MessageMode::Sign => "Sign"@,
        MessageMode::SignAndEncrypt => "SignAndEncrypt"@,
    }
}

pub fn message_mode_name(m: MessageMode) -> (r: &'static str)
    ensures
        r@ == message_mode_text(m),
{
    match m {
        MessageMode::Invalid => "Invalid",
        MessageMode::NoSecurity => "None",
        MessageMode::Sign => "Sign",
        MessageMode::SignAndEncrypt => "SignAndEncrypt",
    }
}

/// The kinds of user identity token an endpoint accepts.
#[derive(PartialEq, Eq, Structural, Clone, Copy, Debug)]
pub enum UserTokenKind {
    Anonymous,
    UserName,
    Certificate,
    IssuedToken,
}

/// An endpoint description as a server sends it, in plain values.
pub struct ServerEndpoint {
    pub endpoint_url: String,
    pub security_policy_uri: String,
    pub security_mode: MessageMode,
    pub security_level: u8,
    pub user_token_types: Vec<UserTokenKind>,
}

/// Does the endpoint accept a token of kind `k`?
pub open spec fn accepts_token(e: ServerEndpoint, k: UserTokenKind) -> bool {
    exists|i: int| 0 <= i < e.user_token_types@.len() && e.user_token_types@[i] == k
}

/// `info` is what the client shows of the endpoint `e` whose policy has
/// the short name `policy`.
pub open spec fn describes(info: EndpointInfo, e: ServerEndpoint, policy: Seq<char>) -> bool {
    &&& info.endpoint_url@ == e.endpoint_url@
    &&& info.security_policy@ == policy
    &&& info.security_policy_uri@ == e.security_policy_uri@
    &&& info.security_mode == security_mode_of(e.security_mode)
    &&& info.security_level == e.security_level
    &&& info.supports_anonymous == accepts_token(e, UserTokenKind::Anonymous)
    &&& info.supports_username == accepts_token(e, UserTokenKind::UserName)
    &&& info.supports_certificate == accepts_token(e, UserTokenKind::Certificate)
}

/// Does the endpoint accept a token of kind `k`?
fn has_token(e: &ServerEndpoint, k: UserTokenKind) -> (r: bool)
    ensures
        r == accepts_token(*e, k),
{
    let mut i: usize = 0;
    while i < e.user_token_types.len()
        invariant
            0 <= i <= e.user_token_types@.len(),
            forall|j: int| 0 <= j < i ==> e.user_token_types@[j] != k,
        decreases e.user_token_types.len() - i,
    {
        if e.user_token_types[i] == k {
            return true;
        }
        i = i + 1;
    }
    false
}

/// The endpoint as the client shows it, given the short name of its policy.
pub fn endpoint_info_from(e: &ServerEndpoint, policy: &str) -> (info: EndpointInfo)
    ensures
        describes(info, *e, policy@),
{
    EndpointInfo {
        endpoint_url: e.endpoint_url.clone(),
        security_policy: policy.to_owned(),
        security_policy_uri: e.security_policy_uri.clone(),
        security_mode: message_mode_to_security_mode(e.security_mode),
        security_level: e.security_level,
        supports_anonymous: has_token(e, UserTokenKind::Anonymous),
        supports_username: has_token(e, UserTokenKind::UserName),
        supports_certificate: has_token(e, UserTokenKind::Certificate),
    }
}

/// Does the text name a security policy that `SecurityPolicy` knows?
pub fn is_known_policy(uri: &str) -> (r: bool)
    ensures
        r == (policy_of_text(uri@) != PolicyKind::Unknown),
{
    security_policy_from_text(uri) != PolicyKind::Unknown
}

/// Reads an endpoint description from a server: the policy is shown by its
/// short name. The policy must be one `SecurityPolicy` knows (naming an
/// unknown one panics in `SecurityPolicy::to_str`).
pub fn endpoint_description_to_info(e: &ServerEndpoint) -> (info: EndpointInfo)
    requires
        policy_of_text(e.security_policy_uri@) != PolicyKind::Unknown,
    ensures
        describes(info, *e, policy_name_text(policy_of_text(e.security_policy_uri@))),
{
    let p = security_policy_from_text(e.security_policy_uri.as_str());
    let name = security_policy_name(p);
    endpoint_info_from(e, name)
}

/// The policy URI and message mode a connection asks for: those of the
/// chosen endpoint, or no security when none was chosen.
pub open spec fn target_of(endpoint: Option<EndpointInfo>) -> (Seq<char>, MessageMode) {
    match endpoint {
        Some(ep) => (ep.security_policy_uri@, message_mode_of(ep.security_mode)),
        None => (policy_uri_text(PolicyKind::NoSecurity), MessageMode::NoSecurity),
    }
}

/// The policy URI and message mode to connect with.
pub fn connect_target(endpoint: Option<&EndpointInfo>) -> (r: (String, MessageMode))
    ensures
        (r.0@, r.1) == target_of(match endpoint { Some(e) => Some(*e), None => None }),
{
    match endpoint {
        Some(ep) => (ep.security_policy_uri.clone(), security_mode_to_message_mode(ep.security_mode)),
        None => (security_policy_uri(PolicyKind::NoSecurity).to_owned(), MessageMode::NoSecurity),
    }
}

/// Does the server endpoint offer the policy and mode asked for?
pub open spec fn offers(e: ServerEndpoint, policy_uri: Seq<char>, mode: MessageMode) -> bool {
    e.security_policy_uri@ == policy_uri && e.security_mode == mode
}

/// The first of the server's endpoints that offers the policy and mode.
pub fn find_server_endpoint(descs: &Vec<ServerEndpoint>, policy_uri: &str, mode: MessageMode) -> (r: Option<usize>)
    ensures
        match r {
            Some(i) => i < descs@.len() && offers(descs@[i as int], policy_uri@, mode)
                && forall|j: int| 0 <= j < i ==> !offers(#[trigger] descs@[j], policy_uri@, mode),
            None => forall|j: int| 0 <= j < descs@.len() ==> !offers(#[trigger] descs@[j], policy_uri@, mode),
        },
{
    let mut i: usize = 0;
    while i < descs.len()
        invariant
            0 <= i <= descs@.len(),
            forall|j: int| 0 <= j < i ==> !offers(#[trigger] descs@[j], policy_uri@, mode),
        decreases descs.len() - i,
    {
        if descs[i].security_mode == mode && crate::text::text_eq(descs[i].security_policy_uri.as_str(), policy_uri) {
            return Some(i);
        }
        i = i + 1;
    }
    None
}

/// The error when the server offers no such endpoint.
pub open spec fn no_endpoint_text(policy_uri: Seq<char>, mode: MessageMode) -> Seq<char> {
    "server has no endpoint with policy '"@ + policy_uri + "' and mode "@ + message_mode_text(mode)
}

pub fn no_endpoint_message(policy_uri: &str, mode: MessageMode) -> (r: String)
    ensures
        r@ == no_endpoint_text(policy_uri@, mode),
{
    let mut r = String::new();
    push_str(&mut r, "server has no endpoint with policy '");
    push_str(&mut r, policy_uri);
    push_str(&mut r, "' and mode ");
    push_str(&mut r, message_mode_name(mode));
    r
}

/// A secured connection logs where the client certificate lies.
pub fn wants_certificate_hint(mode: MessageMode) -> (r: bool)
    ensures
        r == (mode != MessageMode::NoSecurity),
{
    mode != MessageMode::NoSecurity
}

/// The notice when the server reports an endpoint URL other than the one
/// typed.
pub open spec fn transport_notice_text(typed: Seq<char>, reported: Seq<char>) -> Seq<char> {
    "server endpoint URL is "@ + reported + "; forcing transport to typed URL "@ + typed
}

/// The URL the session is opened on: always the one typed, since servers
/// often report an address the client cannot reach; with a notice when the
/// server reported a different, non-empty one.
pub fn transport_url(typed: &str, reported: &str) -> (r: (String, Option<String>))
    ensures
        r.0@ == typed@,
        r.1 is Some <==> (reported@.len() > 0 && reported@ != typed@),
        r.1 matches Some(m) ==> m@ == transport_notice_text(typed@, reported@),
{
    let mut url = String::new();
    push_str(&mut url, typed);
    if !reported.is_empty() && !text_eq(reported, typed) {
        let mut m = String::new();
        push_str(&mut m, "server endpoint URL is ");
        push_str(&mut m, reported);
        push_str(&mut m, "; forcing transport to typed URL ");
        push_str(&mut m, typed);
        (url, Some(m))
    } else {
        (url, None)
    }
}

} // verus!
