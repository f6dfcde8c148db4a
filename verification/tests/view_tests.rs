use ua_client::engine::{Effect, Engine, UiAction, UiUpdate};
use ua_client::model::ConnectionState;
use ua_client::node_id::NodeId;
use ua_client::render::{render_value_for_clipboard, render_value_inline, value_tree_to_string};
use ua_client::tui_view::{
    arg_error_id, arg_input_id, build_attrs_text, build_log_text, build_refs_rows, build_title, build_tree_rows,
    format_row, indent,
};
use ua_client::types::{
    LogLevel, LogLine, NodeAttribute, NodeClass, NodeSummary, ReferenceRow, TreeChild, ValueTree,
};

fn leaf(s: &str) -> ValueTree {
    ValueTree::Leaf(s.to_string())
}

fn child(id: u32, name: &str, has_children: bool) -> TreeChild {
    TreeChild {
        node_id: NodeId::numeric(0, id),
        browse_name: name.to_string(),
        display_name: name.to_string(),
        node_class: NodeClass::Object,
        has_children,
    }
}

#[test]
fn values_render_on_one_line() {
    let v = ValueTree::Array(vec![leaf("a"), ValueTree::Null, ValueTree::Object(vec![("k".to_string(), leaf("v"))])]);
    assert_eq!(v.format_inline(), "[a, <null>, {k: v}]");
    assert_eq!(render_value_inline(&v), v.format_inline());
    assert_eq!(value_tree_to_string(&ValueTree::Null), "null");
    assert_eq!(value_tree_to_string(&v), "[a, null, {k: v}]");
    assert_eq!(ValueTree::Object(vec![]).format_inline(), "{}");
}

#[test]
fn values_render_for_the_clipboard() {
    let v = ValueTree::Array(vec![leaf("a"), ValueTree::Object(vec![("k".to_string(), leaf("v"))])]);
    assert_eq!(render_value_for_clipboard(&v), "[0]\n  a\n[1]\n  k:\n    v");
    assert_eq!(render_value_for_clipboard(&ValueTree::Null), "<null>");
    assert_eq!(render_value_for_clipboard(&leaf("x")), "x");
}

#[test]
fn tree_rows_are_indented_with_markers() {
    assert_eq!(indent(3), "      ");
    assert_eq!(format_row(0, false, true, "Root"), "▸ Root");
    assert_eq!(format_row(1, true, true, "Objects"), "  ▾ Objects");
    assert_eq!(format_row(2, false, false, "Leaf"), "      Leaf");
}

#[test]
fn tree_rows_follow_expansion() {
    let mut engine = Engine::new();
    let rows = build_tree_rows(&engine.model);
    assert_eq!(rows.len(), 1);
    assert_eq!(rows[0].label, "▸ Root");
    assert!(rows[0].item.has_children);

    let root = NodeId::root_folder();
    let eff = engine.dispatch(UiAction::NodeToggleExpand(root.clone()));
    assert_eq!(eff.len(), 1);
    assert!(matches!(&eff[0], Effect::BrowseChildren(n) if n.same(&root)));
    let rows = build_tree_rows(&engine.model);
    assert_eq!(rows.len(), 1);

    engine.apply_update(UiUpdate::ChildrenLoaded {
        parent: root.clone(),
        children: Ok(vec![child(85, "Objects", true), child(86, "Types", false)]),
    });
    let rows = build_tree_rows(&engine.model);
    let labels: Vec<&str> = rows.iter().map(|r| r.label.as_str()).collect();
    assert_eq!(labels, vec!["▾ Root", "  ▸ Objects", "    Types"]);

    // Collapsing and expanding again restores the rows without asking the server.
    assert!(engine.dispatch(UiAction::NodeToggleExpand(root.clone())).is_empty());
    assert_eq!(build_tree_rows(&engine.model).len(), 1);
    assert!(engine.dispatch(UiAction::NodeToggleExpand(root.clone())).is_empty());
    assert_eq!(build_tree_rows(&engine.model).len(), 3);

    // A node whose children are being fetched shows no new rows until they arrive.
    let objects = NodeId::numeric(0, 85);
    engine.dispatch(UiAction::NodeToggleExpand(objects.clone()));
    let rows = build_tree_rows(&engine.model);
    let labels: Vec<&str> = rows.iter().map(|r| r.label.as_str()).collect();
    assert_eq!(labels, vec!["▾ Root", "  ▸ Objects", "    Types"]);
}

#[test]
fn attributes_text_reads_like_a_form() {
    let mut engine = Engine::new();
    assert_eq!(build_attrs_text(&engine.model), "Select a node in the tree to view its attributes.");
    engine.model.selected = Some(NodeId::numeric(0, 85));
    assert_eq!(build_attrs_text(&engine.model), "Loading attributes…");
    engine.model.node_summary = Some(NodeSummary {
        node_id: NodeId::numeric(0, 85),
        attributes: vec![
            NodeAttribute { name: "BrowseName".to_string(), value: leaf("Objects") },
            NodeAttribute { name: "Value".to_string(), value: ValueTree::Array(vec![leaf("1"), ValueTree::Null]) },
        ],
    });
    assert_eq!(
        build_attrs_text(&engine.model),
        "Node: i=85\n\nBrowseName:\n  Objects\n\nValue:\n  [0]\n    1\n  [1]\n    <null>\n\n"
    );
}

#[test]
fn references_and_log_lines() {
    let mut engine = Engine::new();
    assert!(build_refs_rows(&engine.model).is_empty());
    engine.model.references = Some(vec![ReferenceRow {
        reference_type: "Organizes".to_string(),
        is_forward: false,
        target_node_id: NodeId::numeric(2, 7),
        target_browse_name: "Parent".to_string(),
        target_display_name: "Parent".to_string(),
        target_node_class: NodeClass::Object,
    }]);
    let rows = build_refs_rows(&engine.model);
    assert_eq!(rows[0].label, "← Organizes · Parent · ns=2;i=7");

    engine.apply_update(UiUpdate::Log(LogLine {
        level: LogLevel::Warn,
        target: "ua".to_string(),
        message: "careful".to_string(),
    }));
    engine.apply_update(UiUpdate::Log(LogLine {
        level: LogLevel::Error,
        target: "ua".to_string(),
        message: "broken".to_string(),
    }));
    assert_eq!(build_log_text(&engine.model), "[WARN ] ua: careful\n[ERROR] ua: broken\n");
}

#[test]
fn log_keeps_the_last_thousand_lines() {
    let mut engine = Engine::new();
    for i in 0..1005 {
        engine.apply_update(UiUpdate::Log(LogLine { level: LogLevel::Info, target: "t".to_string(), message: i.to_string() }));
    }
    assert_eq!(engine.model.log.len(), 1000);
    assert_eq!(engine.model.log[0].message, "5");
    assert_eq!(engine.model.log[999].message, "1004");
}

#[test]
fn titles_follow_the_connection() {
    assert_eq!(build_title(ConnectionState::Disconnected, &None), "OPC UA Client: Disconnected");
    assert_eq!(build_title(ConnectionState::Connecting, &None), "OPC UA Client: Connecting…");
    assert_eq!(build_title(ConnectionState::Connected, &None), "OPC UA Client: Connected");
    assert_eq!(
        build_title(ConnectionState::Connected, &Some(NodeId::numeric(1, 1234))),
        "OPC UA Client: Connected · ns=1;i=1234"
    );
    assert_eq!(build_title(ConnectionState::Disconnecting, &None), "OPC UA Client: Disconnecting…");
}

#[test]
fn dialog_field_names() {
    assert_eq!(arg_input_id(0), "method_arg_input_0");
    assert_eq!(arg_error_id(12), "method_arg_err_12");
}

#[test]
fn one_line_texts_join_items_and_fields() {
    let v = ValueTree::Object(vec![
        ("b".to_string(), ValueTree::Array(vec![ValueTree::Leaf("1".to_string()), ValueTree::Leaf("2".to_string())])),
        ("a".to_string(), ValueTree::Null),
    ]);
    let text = value_tree_to_string(&v);
    assert_eq!(text, "{b: [1, 2], a: null}");
    assert!(!text.contains('\n'));
    assert_eq!(ValueTree::Array(vec![ValueTree::Leaf("x".to_string())]).format_inline(), "[x]");
}
