//! The texts of the terminal front end: the tree rows, the attribute and
//! reference panes, the log, the title and the method dialog.
use vstd::prelude::*;
use crate::model::{AppModel, ConnectionState, MethodCallState};
use crate::node_id::{node_id_text, NodeId, NodeIdView};
use crate::render::{inline_text, render_value_inline};
use crate::text::{decimal, push_decimal, push_repeat, push_str, repeat};
use crate::types::{LogLevel, LogLine, MethodArgument, MethodSignature, ReferenceRow, TreeChild, ValueTree};

verus! {

broadcast use vstd::std_specs::vec::axiom_vec_decreases_to_view;

/// Indentation of `depth` levels.
pub open spec fn indent_text(depth: nat) -> Seq<char> {
    repeat("  "@, depth)
}

pub fn indent(depth: usize) -> (s: String)
    ensures
        s@ == indent_text(depth as nat),
{
    let mut s = String::new();
    push_repeat(&mut s, "  ", depth);
    assert(s@ =~= indent_text(depth as nat));
    s
}

/// A tree row: indentation, an expand marker (none for a leaf), the label.
pub open spec fn row_text(depth: nat, expanded: bool, has_children: bool, label: Seq<char>) -> Seq<char> {
    let marker = if !has_children { "  "@ } else if expanded { "▾ "@ } else { "▸ "@ };
    indent_text(depth) + marker + label
}

pub fn format_row(depth: usize, expanded: bool, has_children: bool, label: &str) -> (s: String)
    ensures
        s@ == row_text(depth as nat, expanded, has_children, label@),
{
    let mut s = indent(depth);
    if !has_children {
        push_str(&mut s, "  ");
    } else if expanded {
        push_str(&mut s, "▾ ");
    } else {
        push_str(&mut s, "▸ ");
    }
    push_str(&mut s, label);
    s
}

/// A row of the tree view: the node it selects and whether it has children.
pub struct TreeItem {
    pub node_id: NodeId,
    pub has_children: bool,
}

pub struct TreeRow {
    pub item: TreeItem,
    pub label: String,
}

/// The view of a tree row: node, has-children flag, label.
pub open spec fn tree_row_view(r: TreeRow) -> (NodeIdView, bool, Seq<char>) {
    (r.item.node_id@, r.item.has_children, r.label@)
}

pub open spec fn tree_rows_view(rows: Seq<TreeRow>) -> Seq<(NodeIdView, bool, Seq<char>)> {
    rows.map_values(|r: TreeRow| tree_row_view(r))
}

/// The rows below `parent` when it is expanded: its children, each followed
/// by its own rows when expanded, or a loading row while its children are
/// being read. At most `fuel` levels are descended.
pub open spec fn rows_below(m: AppModel, parent: NodeIdView, depth: nat, fuel: nat) -> Seq<(NodeIdView, bool, Seq<char>)>
    decreases fuel, 1nat, 0nat,
{
    if fuel == 0 || !m.tree.expanded@.contains(parent) {
        Seq::empty()
    } else if !m.tree.children@.contains_key(parent) {
        if m.tree.loading@.contains(parent) {
            seq![(parent, false, indent_text(depth) + "(loading…)"@)]
        } else {
            Seq::empty()
        }
    } else {
        let cs = m.tree.children@[parent]@;
        child_rows(m, cs, depth, fuel, cs.len())
    }
}

/// The rows of the first `n` children `cs`.
pub open spec fn child_rows(m: AppModel, cs: Seq<TreeChild>, depth: nat, fuel: nat, n: nat) -> Seq<(NodeIdView, bool, Seq<char>)>
    decreases fuel, 0nat, n,
{
    if n == 0 || n > cs.len() || fuel == 0 {
        Seq::empty()
    } else {
        let c = cs[n - 1];
        let exp = m.tree.expanded@.contains(c.node_id@);
        child_rows(m, cs, depth, fuel, (n - 1) as nat)
            + seq![(c.node_id@, c.has_children, row_text(depth, exp, c.has_children, c.display_name@))]
            + if exp { rows_below(m, c.node_id@, depth + 1, (fuel - 1) as nat) } else { Seq::empty() }
    }
}

/// How many levels the tree rows descend: the number of expanded entries.
pub open spec fn row_fuel(m: AppModel) -> nat {
    let n = m.tree.expanded.count();
    if n < usize::MAX - 2 { n } else { (usize::MAX - 2) as nat }
}

/// The whole tree: the root row, then the rows below the root.
pub open spec fn tree_text_rows(m: AppModel) -> Seq<(NodeIdView, bool, Seq<char>)> {
    let root = m.root_node@;
    let has = if m.tree.children@.contains_key(root) { m.tree.children@[root]@.len() > 0 } else { true };
    seq![(root, has, row_text(0, m.tree.expanded@.contains(root), has, "Root"@))]
        + rows_below(m, root, 1, row_fuel(m))
}

fn push_children(m: &AppModel, parent: &NodeId, depth: usize, fuel: usize, rows: &mut Vec<TreeRow>)
    requires
        m.wf(),
        depth + fuel < usize::MAX,
    ensures
        tree_rows_view(final(rows)@) == tree_rows_view(old(rows)@) + rows_below(*m, parent@, depth as nat, fuel as nat),
    decreases fuel, 1nat, 0nat,
{
    if fuel == 0 || !m.tree.expanded.contains(parent) {
        assert(tree_rows_view(rows@) =~= tree_rows_view(old(rows)@) + rows_below(*m, parent@, depth as nat, fuel as nat));
        return;
    }
    match m.tree.children.get(parent) {
        None => {
            if m.tree.loading.contains(parent) {
                let mut label = indent(depth);
                push_str(&mut label, "(loading…)");
                rows.push(TreeRow { item: TreeItem { node_id: parent.clone(), has_children: false }, label });
            }
            assert(tree_rows_view(rows@) =~= tree_rows_view(old(rows)@) + rows_below(*m, parent@, depth as nat, fuel as nat));
        },
        Some(children) => {
            push_child_rows(m, children, depth, fuel, rows);
        },
    }
}

fn push_child_rows(m: &AppModel, children: &Vec<TreeChild>, depth: usize, fuel: usize, rows: &mut Vec<TreeRow>)
    requires
        m.wf(),
        depth + fuel < usize::MAX,
        fuel > 0,
    ensures
        tree_rows_view(final(rows)@) == tree_rows_view(old(rows)@) + child_rows(*m, children@, depth as nat, fuel as nat, children@.len()),
    decreases fuel, 0nat, children@.len(),
{
    let mut i: usize = 0;
    while i < children.len()
        invariant
            0 <= i <= children@.len(),
            m.wf(),
            depth + fuel < usize::MAX,
            fuel > 0,
            tree_rows_view(rows@) == tree_rows_view(old(rows)@) + child_rows(*m, children@, depth as nat, fuel as nat, i as nat),
        decreases children.len() - i,
    {
        let child = &children[i];
        let expanded = m.tree.expanded.contains(&child.node_id);
        let label = format_row(depth, expanded, child.has_children, child.display_name.as_str());
        let ghost before = tree_rows_view(rows@);
        rows.push(TreeRow { item: TreeItem { node_id: child.node_id.clone(), has_children: child.has_children }, label });
        assert(tree_rows_view(rows@) =~= before.push(tree_row_view(rows@.last())));
        if expanded {
            push_children(m, &child.node_id, depth + 1, fuel - 1, rows);
        }
        i = i + 1;
        assert(tree_rows_view(rows@) =~= tree_rows_view(old(rows)@) + child_rows(*m, children@, depth as nat, fuel as nat, i as nat));
    }
}

/// The rows of the tree view.
pub fn build_tree_rows(m: &AppModel) -> (rows: Vec<TreeRow>)
    requires
        m.wf(),
    ensures
        tree_rows_view(rows@) == tree_text_rows(*m),
{
    let mut rows: Vec<TreeRow> = Vec::new();
    let root = m.root_node.clone();
    let has_children = match m.tree.children.get(&root) {
        Some(c) => c.len() > 0,
        None => true,
    };
    let label = format_row(0, m.tree.expanded.contains(&root), has_children, "Root");
    rows.push(TreeRow { item: TreeItem { node_id: root.clone(), has_children }, label });
    let n = m.tree.expanded.len();
    let fuel = if n < usize::MAX - 2 { n } else { usize::MAX - 2 };
    let ghost first = tree_rows_view(rows@);
    push_children(m, &root, 1, fuel, &mut rows);
    assert(tree_rows_view(rows@) =~= tree_text_rows(*m));
    rows
}

/// A value over several lines: each leaf on its own line after the
/// indentation `ind`, each array item under an `[i]` line and each field
/// under a `k:` line, their content indented two more spaces.
pub open spec fn lines_text(v: ValueTree, ind: Seq<char>) -> Seq<char>
    decreases v, 0nat,
{
    match v {
        ValueTree::Null => ind + "<null>\n"@,
        ValueTree::Leaf(s) => ind + s@ + "\n"@,
        ValueTree::Array(items) => lines_items(items@, ind, items@.len()),
        ValueTree::Object(fields) => lines_fields(fields@, ind, fields@.len()),
    }
}

pub open spec fn lines_items(items: Seq<ValueTree>, ind: Seq<char>, n: nat) -> Seq<char>
    decreases items, n,
{
    if n == 0 || n > items.len() {
        Seq::empty()
    } else {
        lines_items(items, ind, (n - 1) as nat) + ind + "["@ + decimal((n - 1) as nat) + "]\n"@
            + lines_text(items[n - 1], ind + "  "@)
    }
}

pub open spec fn lines_fields(fields: Seq<(String, ValueTree)>, ind: Seq<char>, n: nat) -> Seq<char>
    decreases fields, n,
{
    if n == 0 || n > fields.len() {
        Seq::empty()
    } else {
        let e = fields[n - 1];
        lines_fields(fields, ind, (n - 1) as nat) + ind + e.0@ + ":\n"@ + lines_text(e.1, ind + "  "@)
    }
}

/// Appends the several-line text of a value.
pub fn render_value(v: &ValueTree, ind: &str, out: &mut String)
    ensures
        final(out)@ == old(out)@ + lines_text(*v, ind@),
    decreases v, 1nat,
{
    match v {
        ValueTree::Null => {
            push_str(out, ind);
            push_str(out, "<null>\n");
        },
        ValueTree::Leaf(s) => {
            push_str(out, ind);
            push_str(out, s.as_str());
            push_str(out, "\n");
        },
        ValueTree::Array(items) => render_items(items, ind, out),
        ValueTree::Object(fields) => render_fields(fields, ind, out),
    }
    assert(final(out)@ =~= old(out)@ + lines_text(*v, ind@));
}

fn render_items(items: &Vec<ValueTree>, ind: &str, out: &mut String)
    ensures
        final(out)@ == old(out)@ + lines_items(items@, ind@, items@.len()),
    decreases items, 0nat,
{
    let mut deeper = ind.to_owned();
    push_str(&mut deeper, "  ");
    let mut i: usize = 0;
    while i < items.len()
        invariant
            0 <= i <= items.len(),
            deeper@ == ind@ + "  "@,
            out@ == old(out)@ + lines_items(items@, ind@, i as nat),
        decreases items.len() - i,
    {
        push_str(out, ind);
        push_str(out, "[");
        push_decimal(out, i as u64);
        push_str(out, "]\n");
        proof {
            assert(decreases_to!(*items => items@));
            assert(decreases_to!(items@ => items@[i as int]));
        }
        render_value(&items[i], deeper.as_str(), out);
        i = i + 1;
        assert(out@ =~= old(out)@ + lines_items(items@, ind@, i as nat));
    }
}

fn render_fields(fields: &Vec<(String, ValueTree)>, ind: &str, out: &mut String)
    ensures
        final(out)@ == old(out)@ + lines_fields(fields@, ind@, fields@.len()),
    decreases fields, 0nat,
{
    let mut deeper = ind.to_owned();
    push_str(&mut deeper, "  ");
    let mut i: usize = 0;
    while i < fields.len()
        invariant
            0 <= i <= fields.len(),
            deeper@ == ind@ + "  "@,
            out@ == old(out)@ + lines_fields(fields@, ind@, i as nat),
        decreases fields.len() - i,
    {
        push_str(out, ind);
        push_str(out, fields[i].0.as_str());
        push_str(out, ":\n");
        proof {
            assert(decreases_to!(*fields => fields@));
            assert(decreases_to!(fields@ => fields@[i as int]));
            assert(decreases_to!(fields@[i as int] => fields@[i as int].1));
        }
        render_value(&fields[i].1, deeper.as_str(), out);
        i = i + 1;
        assert(out@ =~= old(out)@ + lines_fields(fields@, ind@, i as nat));
    }
}

/// The attribute lines of a summary: each name, then its value indented.
pub open spec fn attribute_lines(attrs: Seq<crate::types::NodeAttribute>, n: nat) -> Seq<char>
    decreases n,
{
    if n == 0 || n > attrs.len() {
        Seq::empty()
    } else {
        attribute_lines(attrs, (n - 1) as nat) + attrs[n - 1].name@ + ":\n"@
            + lines_text(attrs[n - 1].value, "  "@) + "\n"@
    }
}

/// The attribute pane: a prompt when nothing is selected, a loading line
/// while the selection's attributes are read, else the node and its attributes.
pub open spec fn attrs_text(m: AppModel) -> Seq<char> {
    match m.node_summary {
        None => if m.selected is Some {
            "Loading attributes…"@
        } else {
            "Select a node in the tree to view its attributes."@
        },
        Some(s) => "Node: "@ + node_id_text(s.node_id@) + "\n"@ + "\n"@
            + attribute_lines(s.attributes@, s.attributes@.len()),
    }
}

pub fn build_attrs_text(m: &AppModel) -> (s: String)
    ensures
        s@ == attrs_text(*m),
{
    match &m.node_summary {
        None => if m.selected.is_some() {
            "Loading attributes…".to_owned()
        } else {
            "Select a node in the tree to view its attributes.".to_owned()
        },
        Some(summary) => {
            let mut out = "Node: ".to_owned();
            summary.node_id.write_text(&mut out);
            push_str(&mut out, "\n");
            push_str(&mut out, "\n");
            let attrs = &summary.attributes;
            let ghost head = out@;
            let mut i: usize = 0;
            while i < attrs.len()
                invariant
                    0 <= i <= attrs@.len(),
                    out@ == head + attribute_lines(attrs@, i as nat),
                decreases attrs.len() - i,
            {
                push_str(&mut out, attrs[i].name.as_str());
                push_str(&mut out, ":\n");
                render_value(&attrs[i].value, "  ", &mut out);
                push_str(&mut out, "\n");
                i = i + 1;
                assert(out@ =~= head + attribute_lines(attrs@, i as nat));
            }
            assert(out@ =~= attrs_text(*m));
            out
        },
    }
}

/// A row of the reference pane: the target and its label.
pub struct RefRow {
    pub target: NodeId,
    pub label: String,
}

/// A reference's label: direction arrow, reference type, target name, target id.
pub open spec fn ref_label(r: ReferenceRow) -> Seq<char> {
    (if r.is_forward { "→"@ } else { "←"@ }) + " "@ + r.reference_type@ + " · "@ + r.target_display_name@
        + " · "@ + node_id_text(r.target_node_id@)
}

pub fn build_refs_rows(m: &AppModel) -> (rows: Vec<RefRow>)
    ensures
        match m.references {
            None => rows@.len() == 0,
            Some(refs) => rows@.len() == refs@.len() && forall|i: int| 0 <= i < rows@.len() ==> {
                &&& (#[trigger] rows@[i]).target == refs@[i].target_node_id
                &&& rows@[i].label@ == ref_label(refs@[i])
            },
        },
{
    let mut rows: Vec<RefRow> = Vec::new();
    match &m.references {
        None => rows,
        Some(refs) => {
            let mut i: usize = 0;
            while i < refs.len()
                invariant
                    0 <= i <= refs@.len(),
                    rows@.len() == i,
                    forall|j: int| 0 <= j < i ==> {
                        &&& (#[trigger] rows@[j]).target == refs@[j].target_node_id
                        &&& rows@[j].label@ == ref_label(refs@[j])
                    },
                decreases refs.len() - i,
            {
                let r = &refs[i];
                let mut label = if r.is_forward { "→".to_owned() } else { "←".to_owned() };
                push_str(&mut label, " ");
                push_str(&mut label, r.reference_type.as_str());
                push_str(&mut label, " · ");
                push_str(&mut label, r.target_display_name.as_str());
                push_str(&mut label, " · ");
                r.target_node_id.write_text(&mut label);
                assert(label@ =~= ref_label(*r));
                rows.push(RefRow { target: r.target_node_id.clone(), label });
                i = i + 1;
            }
            rows
        },
    }
}

/// The tag of a log level in the terminal log, five characters wide.
pub open spec fn level_text(l: LogLevel) -> Seq<char> {
    match l {
        LogLevel::Error => "ERROR"@,
        LogLevel::Warn => "WARN "@,
        LogLevel::Info => "INFO "@,
        LogLevel::Debug => "DEBUG"@,
        LogLevel::Trace => "TRACE"@,
    }
}

/// The log pane: one `[LEVEL] target: message` line per log line.
pub open spec fn log_text(lines: Seq<LogLine>, n: nat) -> Seq<char>
    decreases n,
{
    if n == 0 || n > lines.len() {
        Seq::empty()
    } else {
        let l = lines[n - 1];
        log_text(lines, (n - 1) as nat) + "["@ + level_text(l.level) + "] "@ + l.target@ + ": "@ + l.message@ + "\n"@
    }
}

pub fn build_log_text(m: &AppModel) -> (s: String)
    ensures
        s@ == log_text(m.log@, m.log@.len()),
{
    let mut out = String::new();
    let mut i: usize = 0;
    while i < m.log.len()
        invariant
            0 <= i <= m.log@.len(),
            out@ == log_text(m.log@, i as nat),
        decreases m.log.len() - i,
    {
        let line = &m.log[i];
        let lvl = match line.level {
            LogLevel::Error => "ERROR",
            LogLevel::Warn => "WARN ",
            LogLevel::Info => "INFO ",
            LogLevel::Debug => "DEBUG",
            LogLevel::Trace => "TRACE",
        };
        push_str(&mut out, "[");
        push_str(&mut out, lvl);
        push_str(&mut out, "] ");
        push_str(&mut out, line.target.as_str());
        push_str(&mut out, ": ");
        push_str(&mut out, line.message.as_str());
        push_str(&mut out, "\n");
        i = i + 1;
        assert(out@ =~= log_text(m.log@, i as nat));
    }
    out
}

/// The window title for a connection state and selection.
pub open spec fn title_text(c: ConnectionState, selected: Option<NodeId>) -> Seq<char> {
    "OPC UA Client: "@ + match c {
        ConnectionState::Disconnected => "Disconnected"@,
        ConnectionState::Connecting => "Connecting…"@,
        ConnectionState::Connected => match selected {
            Some(n) => "Connected · "@ + node_id_text(n@),
            None => "Connected"@,
        },
        ConnectionState::Reconnecting => "Reconnecting…"@,
        ConnectionState::Disconnecting => "Disconnecting…"@,
    }
}

pub fn build_title(c: ConnectionState, selected: &Option<NodeId>) -> (s: String)
    ensures
        s@ == title_text(c, *selected),
{
    let mut s = "OPC UA Client: ".to_owned();
    match c {
        ConnectionState::Disconnected => push_str(&mut s, "Disconnected"),
        ConnectionState::Connecting => push_str(&mut s, "Connecting…"),
        ConnectionState::Connected => match selected {
            Some(n) => {
                push_str(&mut s, "Connected · ");
                n.write_text(&mut s);
            },
            None => push_str(&mut s, "Connected"),
        },
        ConnectionState::Reconnecting => push_str(&mut s, "Reconnecting…"),
        ConnectionState::Disconnecting => push_str(&mut s, "Disconnecting…"),
    }
    assert(s@ =~= title_text(c, *selected));
    s
}

/// The title of the method dialog: the node while its signature is not
/// known, else the method's display name.
pub open spec fn method_title_text(st: MethodCallState) -> Seq<char> {
    "Call Method · "@ + match st {
        MethodCallState::Loading { node } => node_id_text(node@),
        MethodCallState::Failed { node, .. } => node_id_text(node@),
        MethodCallState::Inputs { signature, .. } => signature.method_display_name@,
        MethodCallState::Calling { signature, .. } => signature.method_display_name@,
        MethodCallState::Result { signature, .. } => signature.method_display_name@,
    }
}

pub fn method_dialog_title(st: &MethodCallState) -> (s: String)
    ensures
        s@ == method_title_text(*st),
{
    let mut s = "Call Method · ".to_owned();
    match st {
        MethodCallState::Loading { node } => node.write_text(&mut s),
        MethodCallState::Failed { node, .. } => node.write_text(&mut s),
        MethodCallState::Inputs { signature, .. } => push_str(&mut s, signature.method_display_name.as_str()),
        MethodCallState::Calling { signature, .. } => push_str(&mut s, signature.method_display_name.as_str()),
        MethodCallState::Result { signature, .. } => push_str(&mut s, signature.method_display_name.as_str()),
    }
    assert(s@ =~= method_title_text(*st));
    s
}

/// The name of the edit field of input `index`.
pub fn arg_input_id(index: usize) -> (s: String)
    ensures
        s@ == "method_arg_input_"@ + decimal(index as nat),
{
    let mut s = "method_arg_input_".to_owned();
    push_decimal(&mut s, index as u64);
    s
}

/// The name of the error line of input `index`.
pub fn arg_error_id(index: usize) -> (s: String)
    ensures
        s@ == "method_arg_err_"@ + decimal(index as nat),
{
    let mut s = "method_arg_err_".to_owned();
    push_decimal(&mut s, index as u64);
    s
}

/// `Method: <node>` and `Parent object: <parent>` on two lines.
pub fn method_header(sig: &MethodSignature) -> (s: String)
    ensures
        s@ == "Method: "@ + node_id_text(sig.method_node@) + "\nParent object: "@ + node_id_text(sig.parent_object@),
{
    let mut s = "Method: ".to_owned();
    sig.method_node.write_text(&mut s);
    push_str(&mut s, "\nParent object: ");
    sig.parent_object.write_text(&mut s);
    s
}

/// An argument with its type: `  <name> (<type>): `.
pub fn arg_label(arg: &MethodArgument) -> (s: String)
    ensures
        s@ == "  "@ + arg.name@ + " ("@ + arg.type_label@ + "): "@,
{
    let mut s = "  ".to_owned();
    push_str(&mut s, arg.name.as_str());
    push_str(&mut s, " (");
    push_str(&mut s, arg.type_label.as_str());
    push_str(&mut s, "): ");
    s
}

/// An output signature line: `  <name> (<type>)`.
pub fn arg_signature_line(arg: &MethodArgument) -> (s: String)
    ensures
        s@ == "  "@ + arg.name@ + " ("@ + arg.type_label@ + ")"@,
{
    let mut s = "  ".to_owned();
    push_str(&mut s, arg.name.as_str());
    push_str(&mut s, " (");
    push_str(&mut s, arg.type_label.as_str());
    push_str(&mut s, ")");
    s
}

/// The text typed for input `i`, empty when none was typed.
pub fn edited_value(edited: &Vec<String>, i: usize) -> (s: &str)
    ensures
        s@ == if i < edited@.len() { edited@[i as int]@ } else { Seq::<char>::empty() },
{
    proof {
        reveal_strlit("");
    }
    if i < edited.len() { edited[i].as_str() } else { "" }
}

/// A line of the call in progress or of a result input: the argument and its value.
pub fn arg_value_line(arg: &MethodArgument, value: &str) -> (s: String)
    ensures
        s@ == "  "@ + arg.name@ + " ("@ + arg.type_label@ + "): "@ + value@,
{
    let mut s = arg_label(arg);
    push_str(&mut s, value);
    s
}

/// An output of a call: its rendered value, or `<missing>` when the server sent fewer.
pub fn output_line(arg: &MethodArgument, outputs: &Vec<ValueTree>, i: usize) -> (s: String)
    ensures
        s@ == "  "@ + arg.name@ + " ("@ + arg.type_label@ + "): "@ + if i < outputs@.len() {
            inline_text(outputs@[i as int], "<null>"@)
        } else {
            "<missing>"@
        },
{
    let mut s = arg_label(arg);
    if i < outputs.len() {
        let v = render_value_inline(&outputs[i]);
        push_str(&mut s, v.as_str());
    } else {
        push_str(&mut s, "<missing>");
    }
    s
}

/// The error shown under input `i`: the `i`-th error, or nothing.
pub fn error_at(errors: &Vec<Option<String>>, i: usize) -> (s: &str)
    ensures
        s@ == if i < errors@.len() && errors@[i as int] is Some { errors@[i as int]->Some_0@ } else { Seq::<char>::empty() },
{
    proof {
        reveal_strlit("");
    }
    if i < errors.len() {
        match &errors[i] {
            Some(e) => e.as_str(),
            None => "",
        }
    } else {
        ""
    }
}

} // verus!
