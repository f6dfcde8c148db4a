use ua_client::dialogs::{
    attr_body, attr_dialog_refresh, attr_dialog_title, attr_phase_buttons, button_label, dialog_refresh, method_body, phase_buttons,
    phase_of, AttrDialogRefresh, AttrEditPhase, BodyLine, DialogButton, DialogRefresh, MethodPhase,
};
use ua_client::engine::Engine;
use ua_client::model::{AttributeEditState, ConnectionState, MethodCallState};
use ua_client::node_id::NodeId;
use ua_client::tui_state::{
    apply_startup, focus_gates, kept_selection, needs_final_disconnect, ref_list_items, saved_state_of,
    FocusTarget, QuitAction, SavedState, TuiArgs, TuiSession,
};
use ua_client::tui_view::{build_tree_rows, method_dialog_title, RefRow};
use ua_client::types::{MethodArgument, MethodCallOutcome, MethodSignature, ValueTree, WriteTarget};
use ua_client::widgets::{frame_drawable, frame_glyphs, frame_inner_size, FocusFrame, FocusGate};

fn texts(lines: &[BodyLine]) -> Vec<String> {
    lines
        .iter()
        .map(|l| match l {
            BodyLine::Text(t) => t.clone(),
            BodyLine::Spacer => "".to_string(),
            BodyLine::Input { index, label, value } => format!("<in {index}>{label}{value}"),
            BodyLine::FieldError { index, text } => format!("<err {index}>{text}"),
            BodyLine::CallError(t) => format!("<call>{t}"),
        })
        .collect()
}

fn arg(name: &str, label: &str, description: &str) -> MethodArgument {
    MethodArgument {
        name: name.to_string(),
        description: description.to_string(),
        data_type: NodeId::numeric(0, 6),
        value_rank: -1,
        type_label: label.to_string(),
    }
}

fn signature() -> MethodSignature {
    MethodSignature {
        parent_object: NodeId::numeric(2, 1),
        method_node: NodeId::numeric(2, 2),
        method_display_name: "Add".to_string(),
        inputs: vec![arg("a", "Int32", "first"), arg("b", "Int32", "")],
        outputs: vec![arg("sum", "Int32", "")],
    }
}

#[test]
fn quitting_disconnects_first() {
    let mut s = TuiSession::new(None);
    assert_eq!(s.request_quit(ConnectionState::Connected), QuitAction::DisconnectFirst);
    assert!(s.pending_quit);
    assert!(!s.finish_quit_due(ConnectionState::Disconnecting));
    assert!(s.finish_quit_due(ConnectionState::Disconnected));
    assert!(!s.finish_quit_due(ConnectionState::Disconnected));
    assert_eq!(s.request_quit(ConnectionState::Connected), QuitAction::Quit);

    let mut t = TuiSession::new(None);
    assert_eq!(t.request_quit(ConnectionState::Disconnected), QuitAction::Quit);
    assert!(!t.pending_quit);
    assert_eq!(t.request_quit(ConnectionState::Disconnecting), QuitAction::AwaitDisconnect);
    assert!(t.pending_quit);
}

#[test]
fn widgets_take_focus_by_connection_state() {
    let g = focus_gates(ConnectionState::Disconnected);
    assert!(g.url && g.connect && !g.disconnect && !g.tree && !g.attrs && !g.refs);
    let g = focus_gates(ConnectionState::Connecting);
    assert!(!g.url && !g.connect && g.disconnect && !g.tree);
    let g = focus_gates(ConnectionState::Connected);
    assert!(!g.url && g.disconnect && g.tree && g.attrs && g.refs);
    let g = focus_gates(ConnectionState::Disconnecting);
    assert!(!g.url && !g.disconnect && !g.tree);
    assert!(needs_final_disconnect(ConnectionState::Connecting));
    assert!(!needs_final_disconnect(ConnectionState::Disconnecting));
}

#[test]
fn focus_follows_the_connection_and_the_path_is_handed_out_once() {
    let mut s = TuiSession::new(Some("/Objects/Server".to_string()));
    assert!(s.connection_changed(ConnectionState::Disconnected).is_none());
    let (t, p) = s.connection_changed(ConnectionState::Connecting).unwrap();
    assert_eq!(t, FocusTarget::DisconnectButton);
    assert!(p.is_none());
    let (t, p) = s.connection_changed(ConnectionState::Connected).unwrap();
    assert_eq!(t, FocusTarget::Tree);
    assert_eq!(p.as_deref(), Some("/Objects/Server"));
    assert!(s.connection_changed(ConnectionState::Connected).is_none());
    s.connection_changed(ConnectionState::Disconnected);
    let (_, p) = s.connection_changed(ConnectionState::Connected).unwrap();
    assert!(p.is_none());
}

#[test]
fn start_up_takes_saved_state_then_the_command_line() {
    let mut engine = Engine::new();
    let mut saved = SavedState::empty();
    saved.endpoint_url = Some("opc.tcp://saved".to_string());
    saved.endpoint_history = vec!["opc.tcp://saved".to_string()];
    let auto = apply_startup(&mut engine.model, saved, &TuiArgs { url: None, path: None });
    assert!(!auto);
    assert_eq!(engine.model.endpoint_url, "opc.tcp://saved");
    assert_eq!(engine.model.endpoint_history, vec!["opc.tcp://saved".to_string()]);

    let mut engine = Engine::new();
    engine.model.last_selection_paths.insert("opc.tcp://cli".to_string(), vec![NodeId::numeric(0, 85)]);
    let mut saved = SavedState::empty();
    saved.endpoint_url = Some("opc.tcp://saved".to_string());
    let auto = apply_startup(&mut engine.model, saved, &TuiArgs { url: Some("opc.tcp://cli".to_string()), path: None });
    assert!(auto);
    assert_eq!(engine.model.endpoint_url, "opc.tcp://cli");
    assert!(!engine.model.last_selection_paths.contains_key(&"opc.tcp://cli".to_string()));

    let mut engine = Engine::new();
    let auto = apply_startup(&mut engine.model, SavedState::empty(), &TuiArgs { url: None, path: Some("/x".to_string()) });
    assert!(auto);
    assert_eq!(engine.model.endpoint_url, "opc.tcp://localhost:4855");

    let saved = saved_state_of(&engine.model);
    assert_eq!(saved.endpoint_url.as_deref(), Some("opc.tcp://localhost:4855"));
    assert!(saved.endpoint_history.is_empty());
}

#[test]
fn reference_lists_have_placeholders() {
    let rows = vec![RefRow { target: NodeId::numeric(0, 85), label: "→ Organizes · Objects · i=85".to_string() }];
    let items = ref_list_items(true, &rows);
    assert_eq!(items.len(), 1);
    assert_eq!(items[0].0, "(loading…)");
    assert!(items[0].1.same(&NodeId::null()));
    let items = ref_list_items(false, &vec![]);
    assert_eq!(items[0].0, "(no references)");
    let items = ref_list_items(false, &rows);
    assert_eq!(items[0].0, rows[0].label);
    assert!(items[0].1.same(&NodeId::numeric(0, 85)));
}

#[test]
fn tree_selection_is_kept_across_rebuilds() {
    let engine = Engine::new();
    let rows = build_tree_rows(&engine.model);
    assert_eq!(kept_selection(&rows, &NodeId::root_folder()), Some(0));
    assert_eq!(kept_selection(&rows, &NodeId::numeric(0, 85)), None);
}

#[test]
fn frames_and_gates() {
    let mut g = FocusGate::new(7u8);
    assert!(g.is_enabled());
    g.set_enabled(false);
    assert!(!g.is_enabled());
    assert_eq!(g.inner, 7);

    let f = FocusFrame::new((), "Log");
    assert_eq!(f.required_size((10, 5)), (12, 7));
    assert_eq!(f.required_size((0, 0)), (9, 2));
    assert_eq!(f.label(), " Log ");
    assert_eq!(f.title_position(20), Some(7));
    assert_eq!(f.title_position(8), None);
    assert_eq!(f.title_position(11), Some(3));
    assert_eq!(FocusFrame::new((), "").title_position(40), None);
    assert_eq!(FocusFrame::new((), "Address Space").required_size((3, 1)), (19, 3));
    assert_eq!(frame_inner_size((1, 10)), (0, 8));
    assert!(frame_drawable(2, 2));
    assert!(!frame_drawable(1, 5));
    assert_eq!(frame_glyphs(true).top_left, "┏");
    assert_eq!(frame_glyphs(false).vertical, "│");
}

#[test]
fn the_method_dialog_is_rebuilt_on_phase_changes() {
    let loading = MethodCallState::Loading { node: NodeId::numeric(2, 2) };
    assert_eq!(phase_of(&loading), MethodPhase::Loading);
    assert_eq!(dialog_refresh(None, &loading), DialogRefresh::Rebuild(MethodPhase::Loading));
    assert_eq!(dialog_refresh(Some(MethodPhase::Loading), &loading), DialogRefresh::Keep);
    assert_eq!(texts(&method_body(&loading)), vec!["Reading method signature…"]);
    assert_eq!(method_dialog_title(&loading), "Call Method · ns=2;i=2");
    let inputs = MethodCallState::Inputs {
        node: NodeId::numeric(2, 2),
        signature: signature(),
        edited: vec!["1".to_string()],
        field_errors: vec![None, Some("value required".to_string())],
        call_error: None,
    };
    assert_eq!(dialog_refresh(Some(MethodPhase::Inputs), &inputs), DialogRefresh::UpdateErrors);
    assert_eq!(method_dialog_title(&inputs), "Call Method · Add");
    assert_eq!(
        texts(&method_body(&inputs)),
        vec![
            "Method: ns=2;i=2\nParent object: ns=2;i=1",
            "",
            "Inputs:",
            "<in 0>  a (Int32): 1",
            "<err 0>",
            "    first",
            "<in 1>  b (Int32): ",
            "<err 1>value required",
            "",
            "Output signature:",
            "  sum (Int32)",
            "",
            "<call>",
        ]
    );
    let buttons: Vec<&str> = phase_buttons(MethodPhase::Inputs).into_iter().map(button_label).collect();
    assert_eq!(buttons, vec!["Call", "Close"]);
    assert_eq!(phase_buttons(MethodPhase::Result), vec![DialogButton::CallAgain, DialogButton::Close]);
}

#[test]
fn the_method_dialog_shows_results() {
    let result = MethodCallState::Result {
        node: NodeId::numeric(2, 2),
        signature: signature(),
        edited: vec!["1".to_string(), "2".to_string()],
        outcome: MethodCallOutcome {
            status: "Good".to_string(),
            outputs: vec![],
            input_arg_errors: vec![None, Some("BadOutOfRange".to_string())],
        },
    };
    assert_eq!(
        texts(&method_body(&result)),
        vec![
            "Method: ns=2;i=2\nParent object: ns=2;i=1",
            "",
            "Inputs:",
            "<in 0>  a (Int32): 1",
            "<err 0>",
            "<in 1>  b (Int32): 2",
            "<err 1>BadOutOfRange",
            "",
            "Status: Good",
            "",
            "Outputs:",
            "  sum (Int32): <missing>",
            "",
            "<call>",
        ]
    );
    let calling = MethodCallState::Calling { node: NodeId::numeric(2, 2), signature: signature(), edited: vec![] };
    assert_eq!(
        texts(&method_body(&calling)),
        vec!["Method: Add", "", "  a (Int32): ", "  b (Int32): ", "", "Calling…"]
    );
    let failed = MethodCallState::Failed { node: NodeId::numeric(2, 2), error: "not connected".to_string() };
    assert_eq!(texts(&method_body(&failed)), vec!["Error: not connected"]);
    let mut sig = signature();
    sig.outputs = vec![arg("x", "Double[]", "")];
    let with_output = MethodCallState::Result {
        node: NodeId::numeric(2, 2),
        signature: sig,
        edited: vec![],
        outcome: MethodCallOutcome {
            status: "Good".to_string(),
            outputs: vec![ValueTree::Array(vec![ValueTree::Leaf("1.5".to_string())])],
            input_arg_errors: vec![],
        },
    };
    assert!(texts(&method_body(&with_output)).contains(&"  x (Double[]): [1.5]".to_string()));
}

#[test]
fn the_attribute_dialog_has_its_own_phases() {
    let target = WriteTarget { data_type: NodeId::numeric(0, 6), value_rank: -1, type_label: "Int32".to_string() };
    let inputs = AttributeEditState::Inputs {
        node: NodeId::numeric(2, 5),
        attr_name: "Value".to_string(),
        target,
        edited: "12".to_string(),
        field_error: Some("invalid Int32".to_string()),
        write_error: None,
    };
    assert_eq!(attr_dialog_refresh(None, &inputs), AttrDialogRefresh::Rebuild(AttrEditPhase::Inputs));
    assert_eq!(attr_dialog_refresh(Some(AttrEditPhase::Inputs), &inputs), AttrDialogRefresh::UpdateErrors);
    assert_eq!(
        texts(&attr_body(&inputs)),
        vec!["Value  (Int32)", "", "<in 0>12", "<err 0>invalid Int32", "<call>"]
    );
    assert_eq!(attr_phase_buttons(AttrEditPhase::Inputs), vec![DialogButton::Write, DialogButton::Cancel]);
    let loading = AttributeEditState::Loading { node: NodeId::numeric(2, 5), attr_name: "Value".to_string() };
    assert_eq!(texts(&attr_body(&loading)), vec!["Reading attribute on ns=2;i=5…"]);
    assert_eq!(attr_dialog_title(&loading), "Edit Attribute · Value");
}
