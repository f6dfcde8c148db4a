use ua_client::summary::{
    method_outcome, node_class_leaf, node_class_name, summary_attributes_from, text_less, AttributeRead, StatusRead,
};
use ua_client::types::{NodeClass, ValueTree};

fn leaf(s: &str) -> ValueTree {
    ValueTree::Leaf(s.to_string())
}

fn read(name: &str, status: Option<(bool, &str)>, value: Option<ValueTree>) -> AttributeRead {
    AttributeRead {
        name: name.to_string(),
        is_value: name == "Value",
        status: status.map(|(good, text)| StatusRead { good, text: text.to_string() }),
        value,
        source_timestamp: None,
        server_timestamp: None,
    }
}

fn text_of(v: &ValueTree) -> String {
    v.format_inline()
}

#[test]
fn names_compare_by_code_point() {
    assert!(text_less("AccessLevel", "BrowseName"));
    assert!(text_less("Value", "ValueRank"));
    assert!(!text_less("ValueRank", "Value"));
    assert!(!text_less("Same", "Same"));
    assert!(text_less("Z", "a"));
    assert!(text_less("", "a"));
}

#[test]
fn attributes_are_good_reads_sorted_by_name() {
    let mut value = read("Value", Some((true, "Good")), Some(leaf("5")));
    value.source_timestamp = Some("2024-01-01".to_string());
    let reads = vec![
        read("WriteMask", None, Some(leaf("0"))),
        value,
        read("Description", Some((false, "BadAttributeIdInvalid")), Some(leaf("x"))),
        read("BrowseName", None, None),
        read("AccessLevel", None, Some(leaf("3"))),
    ];
    let attrs = summary_attributes_from(reads);
    let shown: Vec<(String, String)> = attrs.iter().map(|a| (a.name.clone(), text_of(&a.value))).collect();
    assert_eq!(
        shown,
        vec![
            ("AccessLevel".to_string(), "3".to_string()),
            ("SourceTimestamp".to_string(), "2024-01-01".to_string()),
            ("StatusCode".to_string(), "Good".to_string()),
            ("Value".to_string(), "5".to_string()),
            ("WriteMask".to_string(), "0".to_string()),
        ]
    );
}

#[test]
fn equal_names_keep_their_order() {
    let reads = vec![read("B", None, Some(leaf("1"))), read("A", None, Some(leaf("2"))), read("B", None, Some(leaf("3")))];
    let attrs = summary_attributes_from(reads);
    let shown: Vec<String> = attrs.iter().map(|a| format!("{}={}", a.name, text_of(&a.value))).collect();
    assert_eq!(shown, vec!["A=2", "B=1", "B=3"]);
}

#[test]
fn call_outcomes_keep_errors_of_bad_inputs() {
    let outcome = method_outcome(
        "Good".to_string(),
        vec![leaf("42")],
        vec![
            StatusRead { good: true, text: "Good".to_string() },
            StatusRead { good: false, text: "BadTypeMismatch".to_string() },
        ],
    );
    assert_eq!(outcome.status, "Good");
    assert_eq!(outcome.outputs.len(), 1);
    assert_eq!(outcome.input_arg_errors, vec![None, Some("BadTypeMismatch".to_string())]);
}

#[test]
fn node_classes_are_named() {
    assert_eq!(text_of(&node_class_leaf(4).unwrap()), "Method");
    assert_eq!(text_of(&node_class_leaf(128).unwrap()), "View");
    assert_eq!(text_of(&node_class_leaf(0).unwrap()), "Unspecified");
    assert!(node_class_leaf(3).is_none());
    assert!(node_class_leaf(-1).is_none());
    assert_eq!(node_class_name(NodeClass::VariableType), "VariableType");
}
