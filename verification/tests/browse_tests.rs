use ua_client::browse::{
    argument_properties, browse_name_segment, browse_path_text, escape_browse_name, find_child_reference,
    first_tree_parent, format_path_segment, has_tree_child, is_excluded_tree_reference, name_or_id,
    not_method_error, parse_qualified_name, path_segments, root_first, set_has_children,
    tree_children, walk_continues, chain_start, chain_step, children_flags, flag_request, path_chain_start, AncestorWalk,
    BrowsedReference, ChainStep, PathWalk, QualifiedName,
};
use ua_client::node_id::{Identifier, NodeId};
use ua_client::types::{NodeClass, TreeChild};

fn reference(ref_type: u32, target: u32, ns: u16, name: &str) -> BrowsedReference {
    BrowsedReference {
        reference_type: NodeId::numeric(0, ref_type),
        is_forward: true,
        node_id: NodeId::numeric(0, target),
        browse_name: QualifiedName { namespace_index: ns, name: name.to_string() },
        display_name: format!("{name}!"),
        node_class: NodeClass::Object,
    }
}

fn qn(q: &QualifiedName) -> (u16, &str) {
    (q.namespace_index, q.name.as_str())
}

#[test]
fn reserved_characters_are_escaped() {
    assert_eq!(escape_browse_name("a/b.c"), "a&/b&.c");
    assert_eq!(escape_browse_name("&<>:#!;"), "&&&<&>&:&#&!&;");
    assert_eq!(escape_browse_name("Plain Name"), "Plain Name");
    assert_eq!(format_path_segment(0, "Objects"), "Objects");
    assert_eq!(format_path_segment(2, "Temp:1"), "2:Temp&:1");
}

#[test]
fn segments_read_as_qualified_names() {
    assert_eq!(qn(&parse_qualified_name("Objects")), (0, "Objects"));
    assert_eq!(qn(&parse_qualified_name("2:Temp")), (2, "Temp"));
    assert_eq!(qn(&parse_qualified_name("ns=3:X")), (3, "X"));
    assert_eq!(qn(&parse_qualified_name("abc:def")), (0, "abc:def"));
    assert_eq!(qn(&parse_qualified_name("70000:X")), (0, "70000:X"));
    assert_eq!(qn(&parse_qualified_name("ns=x:Y")), (0, "ns=x:Y"));
    assert_eq!(qn(&parse_qualified_name("1:a:b")), (1, "a:b"));
    assert_eq!(qn(&parse_qualified_name("")), (0, ""));
}

#[test]
fn a_written_segment_reads_back() {
    for (ns, name) in [(0u16, "Server"), (2, "Demo"), (65535, "Last"), (7, "ns=1")] {
        let seg = format_path_segment(ns, name);
        assert_eq!(qn(&parse_qualified_name(&seg)), (ns, name));
    }
}

#[test]
fn paths_split_into_segments() {
    assert_eq!(path_segments("/Root/Objects//Server/"), vec!["Objects", "Server"]);
    assert_eq!(path_segments("/"), Vec::<String>::new());
    assert_eq!(path_segments("root"), Vec::<String>::new());
    assert_eq!(path_segments("ROOT/Objects"), vec!["Objects"]);
    assert_eq!(path_segments("/Objects/Root"), vec!["Objects", "Root"]);
    assert_eq!(path_segments("Objects"), vec!["Objects"]);
}

#[test]
fn browse_paths_are_written_root_first() {
    assert_eq!(browse_path_text(&vec!["2:Demo".to_string(), "Objects".to_string()]), "/Objects/2:Demo");
    assert_eq!(browse_path_text(&vec![]), "/");
    let leaf_first = vec!["ServerStatus".to_string(), "Server".to_string(), "Objects".to_string()];
    let path = browse_path_text(&leaf_first);
    assert_eq!(path, "/Objects/Server/ServerStatus");
    let mut back = path_segments(&path);
    back.reverse();
    assert_eq!(back, leaf_first);
}

#[test]
fn walks_stop_at_the_root_or_the_depth_limit() {
    assert!(!walk_continues(0, &NodeId::root_folder()));
    assert!(walk_continues(63, &NodeId::numeric(0, 85)));
    assert!(!walk_continues(64, &NodeId::numeric(0, 85)));
    assert!(walk_continues(0, &NodeId::numeric(1, 84)));
    let chain = root_first(vec![NodeId::numeric(0, 2253), NodeId::numeric(0, 85), NodeId::root_folder()]);
    let texts: Vec<String> = chain.iter().map(|n| n.to_text()).collect();
    assert_eq!(texts, vec!["i=84", "i=85", "i=2253"]);
}

fn is_load(s: &ChainStep, n: &NodeId) -> bool {
    matches!(s, ChainStep::Load(m) if m.same(n))
}

fn is_select(s: &ChainStep, n: &NodeId) -> bool {
    matches!(s, ChainStep::Select(m) if m.same(n))
}

#[test]
fn a_chain_is_loaded_root_first_then_selected() {
    let chain = vec![NodeId::root_folder(), NodeId::numeric(0, 85), NodeId::numeric(0, 2253)];
    let ok: Result<Vec<TreeChild>, String> = Ok(Vec::new());
    let failed: Result<Vec<TreeChild>, String> = Err("browse failed".to_string());
    assert!(is_load(&chain_start(&chain), &chain[0]));
    assert!(is_load(&chain_step(&chain, 0, &ok), &chain[1]));
    assert!(is_select(&chain_step(&chain, 1, &ok), &chain[2]));
    assert!(matches!(chain_step(&chain, 0, &failed), ChainStep::Stop));
    assert!(matches!(chain_step(&chain, 1, &failed), ChainStep::Stop));
    assert!(matches!(chain_start(&Vec::new()), ChainStep::Stop));
    assert!(is_select(&chain_start(&vec![NodeId::numeric(0, 85)]), &NodeId::numeric(0, 85)));
    assert!(is_load(&path_chain_start(&Ok(chain.clone())), &chain[0]));
    assert!(matches!(path_chain_start(&Err("no child".to_string())), ChainStep::Stop));
}

#[test]
fn a_chain_stops_at_the_first_failed_browse() {
    let chain = vec![NodeId::root_folder(), NodeId::numeric(0, 85), NodeId::numeric(2, 7), NodeId::numeric(2, 8)];
    // Browses: the first succeeds, the second fails.
    let outcomes: Vec<Result<Vec<TreeChild>, String>> = vec![Ok(Vec::new()), Err("timeout".to_string())];
    let mut step = chain_start(&chain);
    let mut loaded: Vec<String> = Vec::new();
    let mut done = 0usize;
    while let ChainStep::Load(n) = &step {
        loaded.push(n.to_text());
        step = chain_step(&chain, done, &outcomes[done]);
        done += 1;
    }
    assert_eq!(loaded, vec!["i=84", "i=85"]);
    assert!(matches!(step, ChainStep::Stop));
}

#[test]
fn ancestor_walks_stop_without_a_parent_or_at_the_root() {
    let mut walk = AncestorWalk::start(NodeId::numeric(2, 9));
    assert!(walk.goes_on());
    assert!(walk.current().same(&NodeId::numeric(2, 9)));
    walk.advance(Some(NodeId::numeric(0, 85)));
    assert!(walk.goes_on());
    walk.advance(Some(NodeId::root_folder()));
    assert!(!walk.goes_on());
    let texts: Vec<String> = walk.into_root_first().iter().map(|n| n.to_text()).collect();
    assert_eq!(texts, vec!["i=84", "i=85", "ns=2;i=9"]);
    let mut orphan = AncestorWalk::start(NodeId::numeric(3, 1));
    orphan.advance(None);
    assert!(!orphan.goes_on());
    assert_eq!(orphan.into_root_first().len(), 1);
}

#[test]
fn child_flags_are_looked_up_only_for_children() {
    assert!(flag_request(&Vec::new()).is_none());
    let kids = vec![TreeChild {
        node_id: NodeId::numeric(0, 85),
        browse_name: "Objects".to_string(),
        display_name: "Objects".to_string(),
        node_class: NodeClass::Object,
        has_children: false,
    }];
    let ids = flag_request(&kids).unwrap();
    assert_eq!(ids.len(), 1);
    assert!(ids[0].same(&NodeId::numeric(0, 85)));
    assert_eq!(children_flags(2, None), vec![false, false]);
    let types = vec![vec![NodeId::numeric(0, 36)], vec![NodeId::numeric(0, 47)], vec![]];
    assert_eq!(children_flags(3, Some(types)), vec![false, true, false]);
}

#[test]
fn path_texts_that_name_the_same_path() {
    let plain: Vec<String> = path_segments("Objects/2:Demo");
    assert_eq!(plain, vec!["Objects", "2:Demo"]);
    assert_eq!(path_segments("Objects/2:Demo/"), plain);
    assert_eq!(path_segments("Objects//2:Demo"), plain);
    assert_eq!(path_segments("///Objects///2:Demo"), plain);
    assert_eq!(path_segments("/Root/Objects/2:Demo"), plain);
    assert!(path_segments("/Root/").is_empty());
    assert!(PathWalk::start("//").is_done());
}

#[test]
fn a_written_browse_path_resolves_to_its_node() {
    // Root folder -> Objects (i=85) -> 2:Demo (ns=2;i=7), written leaf first.
    let text = browse_path_text(&vec![format_path_segment(2, "Demo"), format_path_segment(0, "Objects")]);
    assert_eq!(text, "/Objects/2:Demo");
    let under_root = vec![reference(35, 86, 0, "Types"), reference(35, 85, 0, "Objects")];
    let under_objects = vec![reference(36, 9, 2, "Demo"), reference(47, 7, 2, "Demo"), reference(47, 8, 2, "Demo")];
    let mut walk = PathWalk::start(&text);
    while !walk.is_done() {
        let refs = if walk.current.same(&NodeId::root_folder()) { &under_root } else { &under_objects };
        walk.advance(find_child_reference(refs, &walk.target())).unwrap();
    }
    assert!(walk.current.same(&NodeId::numeric(0, 7)));
}

#[test]
fn path_walks_find_each_segment() {
    let mut walk = PathWalk::start("/Objects/2:Demo");
    assert!(!walk.is_done());
    assert!(walk.current.same(&NodeId::root_folder()));
    assert_eq!(qn(&walk.target()), (0, "Objects"));
    assert!(walk.advance(Some(NodeId::numeric(0, 85))).is_ok());
    assert_eq!(qn(&walk.target()), (2, "Demo"));
    assert_eq!(
        walk.advance(None).err().unwrap(),
        "no child '2:Demo' under i=85 (resolved /Objects so far)"
    );
    assert!(walk.advance(Some(NodeId::numeric(2, 10))).is_ok());
    assert!(walk.is_done());
    assert_eq!(walk.walked, "/Objects/2:Demo");
    assert!(PathWalk::start("/Root").is_done());
}

#[test]
fn event_references_stay_out_of_the_tree() {
    assert!(is_excluded_tree_reference(&NodeId::numeric(0, 36)));
    assert!(is_excluded_tree_reference(&NodeId::numeric(0, 48)));
    assert!(!is_excluded_tree_reference(&NodeId::numeric(0, 35)));
    assert!(!is_excluded_tree_reference(&NodeId::numeric(1, 36)));
    assert!(!is_excluded_tree_reference(&NodeId { namespace: 0, identifier: Identifier::String("36".to_string()) }));
    assert!(has_tree_child(&vec![NodeId::numeric(0, 48), NodeId::numeric(0, 35)]));
    assert!(!has_tree_child(&vec![NodeId::numeric(0, 48), NodeId::numeric(0, 36)]));
    assert!(!has_tree_child(&vec![]));
}

#[test]
fn children_are_kept_once_in_order() {
    let refs = vec![
        reference(35, 1, 0, "A"),
        reference(36, 2, 0, "Events"),
        reference(47, 3, 0, "B"),
        reference(35, 1, 0, "A again"),
    ];
    let mut children = tree_children(&refs);
    let names: Vec<&str> = children.iter().map(|c| c.browse_name.as_str()).collect();
    assert_eq!(names, vec!["A", "B"]);
    assert_eq!(children[0].display_name, "A!");
    assert!(!children[0].has_children);
    set_has_children(&mut children, &vec![true]);
    assert!(children[0].has_children);
    assert!(!children[1].has_children);
}

#[test]
fn children_and_parents_are_found_by_name() {
    let refs = vec![reference(48, 9, 0, "Server"), reference(35, 10, 0, "Server"), reference(35, 11, 0, "Server")];
    let found = find_child_reference(&refs, &QualifiedName { namespace_index: 0, name: "Server".to_string() });
    assert!(found.unwrap().same(&NodeId::numeric(0, 10)));
    assert!(find_child_reference(&refs, &QualifiedName { namespace_index: 1, name: "Server".to_string() }).is_none());
    assert!(first_tree_parent(&refs).unwrap().same(&NodeId::numeric(0, 10)));
    assert!(first_tree_parent(&vec![reference(36, 1, 0, "x")]).is_none());
}

#[test]
fn argument_properties_are_found() {
    let refs = vec![
        reference(46, 5, 0, "InputArguments"),
        reference(46, 6, 1, "OutputArguments"),
        reference(46, 7, 0, "OutputArguments"),
        reference(46, 8, 0, "InputArguments"),
    ];
    let (inputs, outputs) = argument_properties(&refs);
    assert!(inputs.unwrap().same(&NodeId::numeric(0, 8)));
    assert!(outputs.unwrap().same(&NodeId::numeric(0, 7)));
    let (none_in, none_out) = argument_properties(&vec![]);
    assert!(none_in.is_none() && none_out.is_none());
}

#[test]
fn names_fall_back_to_node_ids() {
    let id = NodeId::numeric(3, 42);
    assert_eq!(name_or_id(Some("Pump".to_string()), &id), "Pump");
    assert_eq!(name_or_id(None, &id), "ns=3;i=42");
    assert_eq!(browse_name_segment(None, &id), "ns=3;i=42");
    assert_eq!(
        browse_name_segment(Some(QualifiedName { namespace_index: 3, name: "a.b".to_string() }), &id),
        "3:a&.b"
    );
    assert_eq!(not_method_error(&id, NodeClass::Variable), "node ns=3;i=42 is not a Method (Variable)");
}
