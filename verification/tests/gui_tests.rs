use ua_client::collections::AssocList;
use ua_client::endpoints::{
    credential_rows, dialog_endpoints, endpoint_eq, endpoints_status, first_matching_endpoint, format_endpoint,
    matching_endpoints, position_of_endpoint, token_label as short_token_label,
};
use ua_client::engine::Engine;
use ua_client::gui_view::{
    auth_mode_from_name, auth_mode_name, auth_ready, can_disconnect, can_edit_connection, endpoint_key, level_tag,
    attributes_placeholder, can_refresh, child_label, direction_arrow, history_enabled, log_count_label, security_hint, root_label, value_header, parse_selection_path, references_pane, references_placeholder, ReferencesPane, restore_selection_paths, selection_caption, security_info, selection_path_texts, status_label, target_label,
    token_label,
};
use ua_client::logging::record_field;
use ua_client::model::ConnectionState;
use ua_client::node_id::NodeId;
use ua_client::types::{
    AuthMode, EndpointInfo, LogLevel, NodeAttribute, NodeClass, NodeSummary, ReferenceRow, SecurityMode, TreeChild, ValueTree,
};

fn endpoint(policy: &str, mode: SecurityMode, level: u8, anon: bool, user: bool, cert: bool) -> EndpointInfo {
    EndpointInfo {
        endpoint_url: "opc.tcp://plc:4840".to_string(),
        security_policy: policy.to_string(),
        security_policy_uri: format!("uri#{policy}"),
        security_mode: mode,
        security_level: level,
        supports_anonymous: anon,
        supports_username: user,
        supports_certificate: cert,
    }
}

#[test]
fn endpoints_are_described() {
    let e = endpoint("Basic256Sha256", SecurityMode::Sign, 3, true, false, true);
    assert_eq!(short_token_label(&e), "Anon, Cert");
    assert_eq!(token_label(&e), "Anonymous, Cert");
    assert_eq!(format_endpoint(&e), "Basic256Sha256 L3 [Anon, Cert]   opc.tcp://plc:4840");
    let none = endpoint("None", SecurityMode::NoSecurity, 0, false, false, false);
    assert_eq!(short_token_label(&none), "-");
    assert_eq!(token_label(&none), "—");
    assert_eq!(security_info(&Some(e.clone())), "🔒 Basic256Sha256 / Sign");
    assert_eq!(security_info(&None), "🔓 no endpoint chosen");
    let (url, uri, mode) = endpoint_key(&e);
    assert_eq!((url.as_str(), uri.as_str(), mode), ("opc.tcp://plc:4840", "uri#Basic256Sha256", SecurityMode::Sign));
}

#[test]
fn endpoints_are_offered_strongest_first() {
    let eps = vec![
        endpoint("A", SecurityMode::Sign, 1, true, false, false),
        endpoint("B", SecurityMode::NoSecurity, 9, true, false, false),
        endpoint("C", SecurityMode::Sign, 4, true, false, false),
        endpoint("D", SecurityMode::Sign, 4, true, false, false),
    ];
    let offered: Vec<String> = matching_endpoints(&eps, SecurityMode::Sign).into_iter().map(|e| e.security_policy).collect();
    assert_eq!(offered, vec!["C", "D", "A"]);
    assert_eq!(first_matching_endpoint(&eps, SecurityMode::Sign).unwrap().security_policy, "C");
    assert!(first_matching_endpoint(&eps, SecurityMode::SignAndEncrypt).is_none());
    assert!(dialog_endpoints(&None, SecurityMode::Sign).is_empty());
    assert_eq!(dialog_endpoints(&Some(eps.clone()), SecurityMode::NoSecurity).len(), 1);
    let list = dialog_endpoints(&Some(eps.clone()), SecurityMode::Sign);
    assert_eq!(position_of_endpoint(&list, &eps[3]), Some(1));
    assert!(!endpoint_eq(&eps[2], &eps[3]));
    let mut same = eps[2].clone();
    same.security_level = 0;
    assert!(endpoint_eq(&eps[2], &same));
    assert_eq!(position_of_endpoint(&list, &same), Some(0));
    assert_eq!(position_of_endpoint(&list, &eps[1]), None);
}

#[test]
fn the_endpoint_dialog_status_line() {
    let eps = vec![endpoint("A", SecurityMode::Sign, 1, true, false, false)];
    assert_eq!(endpoints_status(true, &None, SecurityMode::Sign), "Querying endpoints…");
    assert_eq!(endpoints_status(false, &None, SecurityMode::Sign), "Click Refresh to query endpoints.");
    assert_eq!(endpoints_status(false, &Some(vec![]), SecurityMode::Sign), "No endpoints returned by the server.");
    assert_eq!(
        endpoints_status(false, &Some(eps.clone()), SecurityMode::NoSecurity),
        "1 endpoint(s) returned; none match mode 'None'."
    );
    assert_eq!(endpoints_status(false, &Some(eps), SecurityMode::Sign), "1 endpoint(s) matching 'Sign'.");
    assert_eq!(credential_rows(AuthMode::UserName), (true, false));
    assert_eq!(credential_rows(AuthMode::Certificate), (false, true));
    assert_eq!(credential_rows(AuthMode::Anonymous), (false, false));
}

#[test]
fn the_connection_bar() {
    assert_eq!(level_tag(LogLevel::Warn), "[WARN] ");
    assert_eq!(level_tag(LogLevel::Trace), "[TRACE]");
    assert_eq!(log_count_label(&Engine::new().model), "(0 lines)");
    assert_eq!(status_label(ConnectionState::Reconnecting), "⚠ Reconnecting…");
    assert!(can_edit_connection(ConnectionState::Disconnected));
    assert!(!can_edit_connection(ConnectionState::Connected));
    assert!(can_disconnect(ConnectionState::Connected));
    assert!(!can_disconnect(ConnectionState::Connecting));
    assert_eq!(security_hint(ConnectionState::Disconnected), "Click to change endpoint");
    assert_eq!(security_hint(ConnectionState::Connected), "Selected endpoint (disconnect to change)");
    let mut engine = Engine::new();
    assert!(!history_enabled(&engine.model));
    engine.model.endpoint_history.push("opc.tcp://a:4840".to_string());
    assert!(history_enabled(&engine.model));
    engine.model.connection = ConnectionState::Connecting;
    assert!(!history_enabled(&engine.model));
    engine.model.connection = ConnectionState::Disconnected;
    assert!(auth_ready(&engine.model));
    engine.model.auth_mode = AuthMode::Certificate;
    engine.model.auth_cert_path = "c.der".to_string();
    assert!(!auth_ready(&engine.model));
    engine.model.auth_key_path = "k.pem".to_string();
    assert!(auth_ready(&engine.model));
}

#[test]
fn the_node_toolbar() {
    let mut engine = Engine::new();
    assert_eq!(selection_caption(&engine.model), "Disconnected");
    assert!(!can_refresh(&engine.model));
    engine.model.selected = Some(NodeId::numeric(2, 1001));
    assert_eq!(selection_caption(&engine.model), "Disconnected");
    assert!(!can_refresh(&engine.model));
    engine.model.connection = ConnectionState::Connected;
    assert_eq!(selection_caption(&engine.model), "Selected: ns=2;i=1001");
    assert!(can_refresh(&engine.model));
    engine.model.selected = None;
    assert_eq!(selection_caption(&engine.model), "No node selected");
    assert!(!can_refresh(&engine.model));
}

#[test]
fn reference_targets_are_named() {
    let mut r = ReferenceRow {
        reference_type: "HasComponent".to_string(),
        is_forward: true,
        target_node_id: NodeId::numeric(0, 1),
        target_browse_name: "Browse".to_string(),
        target_display_name: String::new(),
        target_node_class: NodeClass::Variable,
    };
    assert_eq!(target_label(&r), "Browse");
    r.target_display_name = "Shown".to_string();
    assert_eq!(target_label(&r), "Shown");
    assert_eq!(direction_arrow(r.is_forward), "→");
    assert_eq!(direction_arrow(false), "←");
}

#[test]
fn the_references_tab() {
    let mut engine = Engine::new();
    assert_eq!(references_pane(&engine.model), ReferencesPane::NoSelection);
    assert_eq!(references_placeholder(ReferencesPane::NoSelection), "Select a node in the tree");
    engine.model.selected = Some(NodeId::numeric(0, 85));
    assert_eq!(references_pane(&engine.model), ReferencesPane::NoData);
    assert_eq!(references_placeholder(ReferencesPane::NoData), "No data");
    engine.model.references_loading = true;
    assert_eq!(references_pane(&engine.model), ReferencesPane::Loading);
    assert_eq!(references_placeholder(ReferencesPane::Loading), "Loading references…");
    engine.model.references_loading = false;
    engine.model.references = Some(Vec::new());
    assert_eq!(references_pane(&engine.model), ReferencesPane::NoReferences);
    assert_eq!(references_placeholder(ReferencesPane::NoReferences), "(no references)");
    engine.model.references = Some(vec![ReferenceRow {
        reference_type: "Organizes".to_string(),
        is_forward: true,
        target_node_id: NodeId::numeric(0, 2253),
        target_browse_name: "Server".to_string(),
        target_display_name: "Server".to_string(),
        target_node_class: NodeClass::Object,
    }]);
    assert_eq!(references_pane(&engine.model), ReferencesPane::Table);
}

#[test]
fn stored_settings_read_back() {
    for m in [AuthMode::Anonymous, AuthMode::UserName, AuthMode::Certificate] {
        assert_eq!(auth_mode_from_name(auth_mode_name(m)), m);
    }
    assert_eq!(auth_mode_from_name("something else"), AuthMode::Anonymous);
    let ids = vec!["i=85".to_string(), "bogus".to_string(), "ns=1;s=Pump".to_string()];
    let path = parse_selection_path(&ids);
    assert_eq!(path.len(), 2);
    assert_eq!(selection_path_texts(&path), vec!["i=85".to_string(), "ns=1;s=Pump".to_string()]);

    let mut paths: AssocList<String, Vec<NodeId>> = AssocList::new();
    restore_selection_paths(
        &mut paths,
        vec![
            ("opc.tcp://a".to_string(), vec!["i=85".to_string()]),
            ("opc.tcp://b".to_string(), vec!["junk".to_string()]),
        ],
    );
    assert!(paths.contains_key(&"opc.tcp://a".to_string()));
    assert!(!paths.contains_key(&"opc.tcp://b".to_string()));
    assert_eq!(paths.get(&"opc.tcp://a".to_string()).unwrap().len(), 1);

    // A later entry that reads as node ids replaces the path; one that does
    // not leaves it; other URLs keep theirs.
    paths.insert("opc.tcp://c".to_string(), vec![NodeId::numeric(0, 84)]);
    restore_selection_paths(
        &mut paths,
        vec![
            ("opc.tcp://a".to_string(), vec!["i=84".to_string(), "ns=2;i=7".to_string()]),
            ("opc.tcp://a".to_string(), vec!["junk".to_string()]),
        ],
    );
    let a = selection_path_texts(paths.get(&"opc.tcp://a".to_string()).unwrap());
    assert_eq!(a, vec!["i=84".to_string(), "ns=2;i=7".to_string()]);
    let c = selection_path_texts(paths.get(&"opc.tcp://c".to_string()).unwrap());
    assert_eq!(c, vec!["i=84".to_string()]);
}

#[test]
fn log_fields_become_the_message() {
    let mut m = String::new();
    record_field(&mut m, "message", "connected");
    assert_eq!(m, "connected");
    record_field(&mut m, "url", "opc.tcp://x");
    assert_eq!(m, "connected url=opc.tcp://x");
    let mut n = String::new();
    record_field(&mut n, "count", "3");
    assert_eq!(n, "count=3");
}

#[test]
fn the_address_space_tree_and_attributes() {
    assert_eq!(root_label(&NodeId::numeric(0, 84)), "Root  (i=84)");
    let mut c = TreeChild {
        node_id: NodeId::numeric(0, 85),
        browse_name: "Objects".to_string(),
        display_name: String::new(),
        node_class: NodeClass::Object,
        has_children: true,
    };
    assert_eq!(child_label(&c), "Objects [Object]");
    c.display_name = "Objekte".to_string();
    assert_eq!(child_label(&c), "Objekte [Object]");
    let arr = ValueTree::Array(vec![ValueTree::Null, ValueTree::Leaf("1".to_string())]);
    assert_eq!(value_header("Value", &arr), Some("Value  [2 items]".to_string()));
    let obj = ValueTree::Object(vec![("a".to_string(), ValueTree::Null)]);
    assert_eq!(value_header("[0]", &obj), Some("[0]  {1 fields}".to_string()));
    assert_eq!(value_header("x", &ValueTree::Leaf("y".to_string())), None);
    let mut engine = Engine::new();
    assert_eq!(attributes_placeholder(&engine.model), Some("Select a node in the tree"));
    engine.model.node_summary = Some(NodeSummary { node_id: NodeId::numeric(0, 85), attributes: Vec::new() });
    assert_eq!(attributes_placeholder(&engine.model), Some("No readable attributes"));
    engine.model.node_summary = Some(NodeSummary {
        node_id: NodeId::numeric(0, 85),
        attributes: vec![NodeAttribute { name: "NodeId".to_string(), value: ValueTree::Leaf("i=85".to_string()) }],
    });
    assert_eq!(attributes_placeholder(&engine.model), None);
}
