use ua_client::engine::{Effect, Engine, UiAction, UiUpdate};
use ua_client::model::ConnectionState;
use ua_client::node_id::NodeId;
use ua_client::types::{AuthMode, EndpointInfo, SecurityMode};

fn endpoint(policy: &str, mode: SecurityMode, level: u8) -> EndpointInfo {
    EndpointInfo {
        endpoint_url: "opc.tcp://localhost:4855".to_string(),
        security_policy: policy.to_string(),
        security_policy_uri: format!("http://opcfoundation.org/UA/SecurityPolicy#{policy}"),
        security_mode: mode,
        security_level: level,
        supports_anonymous: true,
        supports_username: true,
        supports_certificate: false,
    }
}

#[test]
fn connecting_first_discovers_endpoints() {
    let mut engine = Engine::new();
    assert_eq!(engine.model.endpoint_url, "opc.tcp://localhost:4855");
    let eff = engine.dispatch(UiAction::ConnectClicked);
    assert!(engine.model.endpoints_dialog_open);
    assert!(engine.model.endpoints_loading);
    assert!(matches!(&eff[..], [Effect::DiscoverEndpoints(u)] if u == "opc.tcp://localhost:4855"));

    engine.apply_update(UiUpdate::EndpointsDiscovered {
        url: "opc.tcp://localhost:4855".to_string(),
        result: Ok(vec![
            endpoint("Basic256Sha256", SecurityMode::Sign, 3),
            endpoint("None", SecurityMode::NoSecurity, 0),
            endpoint("Aes128", SecurityMode::Sign, 5),
        ]),
    });
    assert!(!engine.model.endpoints_loading);
    assert_eq!(engine.model.selected_endpoint.as_ref().unwrap().security_policy, "None");
    engine.dispatch(UiAction::SetEndpointModeFilter(SecurityMode::Sign));
    assert_eq!(engine.model.selected_endpoint.as_ref().unwrap().security_policy, "Aes128");

    let eff = engine.dispatch(UiAction::ConfirmConnect);
    assert!(!engine.model.endpoints_dialog_open);
    match &eff[..] {
        [Effect::Connect { url, endpoint, auth }] => {
            assert_eq!(url, "opc.tcp://localhost:4855");
            assert_eq!(endpoint.as_ref().unwrap().security_level, 5);
            assert_eq!(auth.mode, AuthMode::Anonymous);
        }
        _ => panic!("expected a connect"),
    }
}

#[test]
fn a_late_discovery_for_another_url_is_ignored() {
    let mut engine = Engine::new();
    engine.dispatch(UiAction::ConnectClicked);
    engine.apply_update(UiUpdate::EndpointsDiscovered { url: "opc.tcp://elsewhere".to_string(), result: Ok(vec![]) });
    assert!(engine.model.endpoints_loading);
    assert!(engine.model.discovered_endpoints.is_none());
}

#[test]
fn a_connection_records_history_and_expands_the_root() {
    let mut engine = Engine::new();
    engine.model.endpoint_history = vec!["opc.tcp://b".to_string(), "opc.tcp://localhost:4855".to_string()];
    engine.apply_update(UiUpdate::ConnectStarted);
    assert_eq!(engine.model.connection, ConnectionState::Connecting);
    let eff = engine.apply_update(UiUpdate::ConnectFinished(Ok(())));
    assert_eq!(engine.model.connection, ConnectionState::Connected);
    assert_eq!(engine.model.endpoint_history, vec!["opc.tcp://localhost:4855".to_string(), "opc.tcp://b".to_string()]);
    assert!(matches!(&eff[..], [Effect::BrowseChildren(n)] if n.same(&NodeId::root_folder())));

    let eff = engine.dispatch(UiAction::DisconnectClicked);
    assert!(matches!(&eff[..], [Effect::Disconnect]));
    engine.apply_update(UiUpdate::DisconnectStarted);
    engine.apply_update(UiUpdate::DisconnectFinished);
    assert_eq!(engine.model.connection, ConnectionState::Disconnected);
    assert!(!engine.model.tree.children.contains_key(&NodeId::root_folder()));
}

#[test]
fn history_holds_at_most_twenty_urls() {
    let mut engine = Engine::new();
    for i in 0..25 {
        engine.dispatch(UiAction::EndpointEdited(format!("opc.tcp://h{i}")));
        engine.apply_update(UiUpdate::ConnectFinished(Ok(())));
    }
    assert_eq!(engine.model.endpoint_history.len(), 20);
    assert_eq!(engine.model.endpoint_history[0], "opc.tcp://h24");
    assert_eq!(engine.model.endpoint_history[19], "opc.tcp://h5");
}

#[test]
fn recording_a_connection_twice_changes_nothing_more() {
    let mut engine = Engine::new();
    for u in ["opc.tcp://a", "opc.tcp://b", "opc.tcp://c"] {
        engine.model.endpoint_history.push(u.to_string());
    }
    engine.model.endpoint_url = "  opc.tcp://b ".to_string();
    engine.model.auth_username = "eve".to_string();
    engine.model.record_successful_connection();
    let once = engine.model.endpoint_history.clone();
    assert_eq!(once, vec!["opc.tcp://b", "opc.tcp://a", "opc.tcp://c"]);
    engine.model.record_successful_connection();
    assert_eq!(engine.model.endpoint_history, once);
    let prefs = engine.model.last_connection_selections.get(&"opc.tcp://b".to_string()).unwrap();
    assert_eq!(prefs.username, "eve");
}

#[test]
fn settings_come_back_with_their_url() {
    let mut engine = Engine::new();
    engine.dispatch(UiAction::EndpointEdited("opc.tcp://plc".to_string()));
    engine.dispatch(UiAction::SetAuthMode(AuthMode::UserName));
    engine.dispatch(UiAction::AuthUsernameEdited("bob".to_string()));
    engine.dispatch(UiAction::AuthPasswordEdited("secret".to_string()));
    engine.dispatch(UiAction::SetEndpointModeFilter(SecurityMode::Sign));
    engine.apply_update(UiUpdate::ConnectFinished(Ok(())));
    engine.apply_update(UiUpdate::DisconnectFinished);

    engine.dispatch(UiAction::EndpointEdited("opc.tcp://other".to_string()));
    engine.dispatch(UiAction::SetAuthMode(AuthMode::Anonymous));
    engine.dispatch(UiAction::AuthUsernameEdited(String::new()));
    engine.dispatch(UiAction::SetEndpointModeFilter(SecurityMode::NoSecurity));

    engine.dispatch(UiAction::EndpointEdited("opc.tcp://plc".to_string()));
    assert_eq!(engine.model.auth_mode, AuthMode::UserName);
    assert_eq!(engine.model.auth_username, "bob");
    assert_eq!(engine.model.endpoint_mode_filter, SecurityMode::Sign);
}

#[test]
fn copy_actions_ask_for_the_clipboard() {
    let mut engine = Engine::new();
    let n = NodeId::numeric(1, 1234);
    let eff = engine.dispatch(UiAction::CopyNodeId(n.clone()));
    assert!(matches!(&eff[..], [Effect::SetClipboard(t)] if t == "ns=1;i=1234"));
    let eff = engine.dispatch(UiAction::CopyPath(n.clone()));
    assert!(matches!(&eff[..], [Effect::BrowsePath(m)] if m.same(&n)));
    let eff = engine.apply_update(UiUpdate::PathReady { node: n, path: Ok("/Objects/1:Pump".to_string()) });
    assert!(matches!(&eff[..], [Effect::SetClipboard(t)] if t == "/Objects/1:Pump"));
    assert!(engine.dispatch(UiAction::CopyNodeValue).is_empty());
}

#[test]
fn selecting_a_node_reads_its_details() {
    let mut engine = Engine::new();
    let n = NodeId::numeric(0, 2253);
    let eff = engine.dispatch(UiAction::NodeSelected(n.clone()));
    assert!(engine.model.selected.as_ref().unwrap().same(&n));
    assert_eq!(eff.len(), 3);
    assert!(matches!(&eff[0], Effect::ReadNodeSummary(m) if m.same(&n)));
    assert!(matches!(&eff[1], Effect::BrowseReferences(m) if m.same(&n)));
    assert!(matches!(&eff[2], Effect::ResolveSelectionPath { url, .. } if url == "opc.tcp://localhost:4855"));
    assert!(engine.model.references_loading);
    engine.dispatch(UiAction::ClearSelection);
    assert!(engine.model.selected.is_none());
}

#[test]
fn navigating_to_a_path_is_outside_work() {
    let engine = Engine::new();
    let eff = engine.navigate_to_textual_path("/Objects/Server".to_string());
    assert!(matches!(&eff[..], [Effect::NavigateToPath(p)] if p == "/Objects/Server"));
}
