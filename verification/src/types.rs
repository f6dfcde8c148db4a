//! The data that flows between the OPC UA client, the model and the views.
use vstd::prelude::*;
use crate::node_id::NodeId;

verus! {

/// The class of a node (OPC UA `NodeClass`).
#[derive(PartialEq, Eq, Structural, Clone, Copy, Debug)]
pub enum NodeClass {
    Unspecified,
    Object,
    Variable,
    Method,
    ObjectType,
    VariableType,
    ReferenceType,
    DataType,
    View,
}

/// A child of a node in the address-space tree.
pub struct TreeChild {
    pub node_id: NodeId,
    pub browse_name: String,
    pub display_name: String,
    pub node_class: NodeClass,
    pub has_children: bool,
}

impl Clone for TreeChild {
    fn clone(&self) -> (r: Self)
        ensures
            r == *self,
    {
        TreeChild {
            node_id: self.node_id.clone(),
            browse_name: self.browse_name.clone(),
            display_name: self.display_name.clone(),
            node_class: self.node_class,
            has_children: self.has_children,
        }
    }
}

/// A value read from a server, as a tree of printable leaves.
pub enum ValueTree {
    Null,
    Leaf(String),
    Array(Vec<ValueTree>),
    Object(Vec<(String, ValueTree)>),
}

/// One attribute of a node: its name and value.
pub struct NodeAttribute {
    pub name: String,
    pub value: ValueTree,
}

/// All readable attributes of a node.
pub struct NodeSummary {
    pub node_id: NodeId,
    pub attributes: Vec<NodeAttribute>,
}

/// How the client authenticates.
#[derive(PartialEq, Eq, Structural, Clone, Copy, Debug)]
pub enum AuthMode {
    Anonymous,
    UserName,
    Certificate,
}

impl Default for AuthMode {
    fn default() -> (r: Self)
        ensures
            r == AuthMode::Anonymous,
    {
        AuthMode::Anonymous
    }
}

/// The message security mode of an endpoint.
#[derive(PartialEq, Eq, Structural, Clone, Copy, Debug)]
pub enum SecurityMode {
    NoSecurity,
    Sign,
    SignAndEncrypt,
}

impl Default for SecurityMode {
    fn default() -> (r: Self)
        ensures
            r == SecurityMode::NoSecurity,
    {
        SecurityMode::NoSecurity
    }
}

/// The name shown for a security mode.
pub open spec fn security_mode_label(m: SecurityMode) -> Seq<char> {
    match m {
        SecurityMode::NoSecurity => "None"@,
        SecurityMode::Sign => "Sign"@,
        SecurityMode::SignAndEncrypt => "SignAndEncrypt"@,
    }
}

impl SecurityMode {
    pub fn label(self) -> (r: &'static str)
        ensures
            r@ == security_mode_label(self),
    {
        match self {
            SecurityMode::NoSecurity => "None",
            SecurityMode::Sign => "Sign",
            SecurityMode::SignAndEncrypt => "SignAndEncrypt",
        }
    }
}

/// Credentials for a connection.
pub struct AuthSpec {
    pub mode: AuthMode,
    pub username: String,
    pub password: String,
    pub cert_path: String,
    pub key_path: String,
}

/// An endpoint advertised by a server.
pub struct EndpointInfo {
    pub endpoint_url: String,
    pub security_policy: String,
    pub security_policy_uri: String,
    pub security_mode: SecurityMode,
    pub security_level: u8,
    pub supports_anonymous: bool,
    pub supports_username: bool,
    pub supports_certificate: bool,
}

impl Clone for EndpointInfo {
    fn clone(&self) -> (r: Self)
        ensures
            r == *self,
    {
        EndpointInfo {
            endpoint_url: self.endpoint_url.clone(),
            security_policy: self.security_policy.clone(),
            security_policy_uri: self.security_policy_uri.clone(),
            security_mode: self.security_mode,
            security_level: self.security_level,
            supports_anonymous: self.supports_anonymous,
            supports_username: self.supports_username,
            supports_certificate: self.supports_certificate,
        }
    }
}

/// One input or output argument of a method.
pub struct MethodArgument {
    pub name: String,
    pub description: String,
    pub data_type: NodeId,
    pub value_rank: i32,
    pub type_label: String,
}

/// The signature of a method: where it lives and its arguments.
pub struct MethodSignature {
    pub parent_object: NodeId,
    pub method_node: NodeId,
    pub method_display_name: String,
    pub inputs: Vec<MethodArgument>,
    pub outputs: Vec<MethodArgument>,
}

/// What a method call returned.
pub struct MethodCallOutcome {
    pub status: String,
    pub outputs: Vec<ValueTree>,
    pub input_arg_errors: Vec<Option<String>>,
}

/// A reference of the selected node.
pub struct ReferenceRow {
    pub reference_type: String,
    pub is_forward: bool,
    pub target_node_id: NodeId,
    pub target_browse_name: String,
    pub target_display_name: String,
    pub target_node_class: NodeClass,
}

/// A monitored node and its latest value.
pub struct SubscriptionRow {
    pub node_id: NodeId,
    pub display_name: String,
    pub value: String,
    pub status: String,
    pub timestamp: Option<String>,
}

/// The data type that a written attribute value must have.
pub struct WriteTarget {
    pub data_type: NodeId,
    pub value_rank: i32,
    pub type_label: String,
}

/// Severity of a log line.
#[derive(PartialEq, Eq, Structural, Clone, Copy, Debug)]
pub enum LogLevel {
    Error,
    Warn,
    Info,
    Debug,
    Trace,
}

/// A line of the log panel.
pub struct LogLine {
    pub level: LogLevel,
    pub target: String,
    pub message: String,
}

} // verus!
