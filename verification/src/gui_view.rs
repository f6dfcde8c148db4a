//! Texts and choices of the windowed front end: log tags, the connection
//! bar, the endpoint dialog, the references table, and what it keeps
//! between runs.
use vstd::prelude::*;
use crate::collections::AssocList;
use crate::endpoints::join;
use crate::model::{AppModel, ConnectionState};
use crate::node_id::{node_id_parse, node_id_text, parse_node_id, NodeId, NodeIdView};
use crate::parse::string_views;
use crate::summary::{node_class_name, node_class_text};
use crate::text::{decimal, push_decimal, push_str, text_eq};
use crate::types::{security_mode_label, AuthMode, EndpointInfo, LogLevel, ReferenceRow, SecurityMode, TreeChild, ValueTree};

verus! {

/// The tag in front of a log line.
pub open spec fn level_tag_text(l: LogLevel) -> Seq<char> {
    match l {
        LogLevel::Error => "[ERROR]"@,
        LogLevel::Warn => "[WARN] "@,
        LogLevel::Info => "[INFO] "@,
        LogLevel::Debug => "[DEBUG]"@,
        LogLevel::Trace => "[TRACE]"@,
    }
}

pub fn level_tag(l: LogLevel) -> (r: &'static str)
    ensures
        r@ == level_tag_text(l),
{
    match l {
        LogLevel::Error => "[ERROR]",
        LogLevel::Warn => "[WARN] ",
        LogLevel::Info => "[INFO] ",
        LogLevel::Debug => "[DEBUG]",
        LogLevel::Trace => "[TRACE]",
    }
}

/// The line count beside the log heading.
pub fn log_count_label(model: &AppModel) -> (r: String)
    ensures
        r@ == "("@ + decimal(model.log@.len()) + " lines)"@,
{
    let mut r = String::new();
    push_str(&mut r, "(");
    push_decimal(&mut r, model.log.len() as u64);
    push_str(&mut r, " lines)");
    r
}

/// The connection state as the status label shows it.
pub open spec fn status_text(c: ConnectionState) -> Seq<char> {
    match c {
        ConnectionState::Disconnected => "Disconnected"@,
        ConnectionState::Connecting => "Connecting…"@,
        ConnectionState::Connected => "Connected"@,
        ConnectionState::Reconnecting => "⚠ Reconnecting…"@,
        ConnectionState::Disconnecting => "Disconnecting…"@,
    }
}

pub fn status_label(c: ConnectionState) -> (r: &'static str)
    ensures
        r@ == status_text(c),
{
    match c {
        ConnectionState::Disconnected => "Disconnected",
        ConnectionState::Connecting => "Connecting…",
        ConnectionState::Connected => "Connected",
        ConnectionState::Reconnecting => "⚠ Reconnecting…",
        ConnectionState::Disconnecting => "Disconnecting…",
    }
}

/// The security of the chosen endpoint as the connection bar shows it.
pub open spec fn security_info_text(ep: Option<EndpointInfo>) -> Seq<char> {
    match ep {
        Some(e) => "🔒 "@ + e.security_policy@ + " / "@ + security_mode_label(e.security_mode),
        None => "🔓 no endpoint chosen"@,
    }
}

pub fn security_info(ep: &Option<EndpointInfo>) -> (r: String)
    ensures
        r@ == security_info_text(*ep),
{
    let mut r = String::new();
    match ep {
        Some(e) => {
            push_str(&mut r, "🔒 ");
            push_str(&mut r, e.security_policy.as_str());
            push_str(&mut r, " / ");
            push_str(&mut r, e.security_mode.label());
        },
        None => push_str(&mut r, "🔓 no endpoint chosen"),
    }
    r
}

/// The URL field, its history and Connect are usable only while
/// disconnected; Disconnect only while connected.
pub fn can_edit_connection(c: ConnectionState) -> (r: bool)
    ensures
        r == (c == ConnectionState::Disconnected),
{
    c == ConnectionState::Disconnected
}

pub fn can_disconnect(c: ConnectionState) -> (r: bool)
    ensures
        r == (c == ConnectionState::Connected),
{
    c == ConnectionState::Connected
}

/// The history drop-down opens only while the URL can be edited and there
/// is a past URL to offer.
pub fn history_enabled(model: &AppModel) -> (r: bool)
    ensures
        r == (model.connection == ConnectionState::Disconnected && model.endpoint_history@.len() > 0),
{
    model.connection == ConnectionState::Disconnected && model.endpoint_history.len() > 0
}

/// The hover text of the security label: it opens the endpoint dialog only
/// while disconnected.
pub fn security_hint(c: ConnectionState) -> (r: &'static str)
    ensures
        r@ == (if c == ConnectionState::Disconnected {
            "Click to change endpoint"@
        } else {
            "Selected endpoint (disconnect to change)"@
        }),
{
    if c == ConnectionState::Disconnected {
        "Click to change endpoint"
    } else {
        "Selected endpoint (disconnect to change)"
    }
}

/// The caption of the node toolbar: the selected node while connected.
pub open spec fn selection_caption_text(m: AppModel) -> Seq<char> {
    if m.connection == ConnectionState::Connected {
        match m.selected {
            Some(id) => "Selected: "@ + node_id_text(id@),
            None => "No node selected"@,
        }
    } else {
        "Disconnected"@
    }
}

pub fn selection_caption(model: &AppModel) -> (r: String)
    ensures
        r@ == selection_caption_text(*model),
{
    let mut r = String::new();
    if model.connection == ConnectionState::Connected {
        match &model.selected {
            Some(id) => {
                push_str(&mut r, "Selected: ");
                id.write_text(&mut r);
            },
            None => push_str(&mut r, "No node selected"),
        }
    } else {
        push_str(&mut r, "Disconnected");
    }
    r
}

/// Refresh re-reads the selected node; it needs a session and a selection.
pub fn can_refresh(model: &AppModel) -> (r: bool)
    ensures
        r == (model.connection == ConnectionState::Connected && model.selected is Some),
{
    model.connection == ConnectionState::Connected && model.selected.is_some()
}

/// What the references tab shows in place of its table, or the table.
#[derive(PartialEq, Eq, Structural, Clone, Copy, Debug)]
pub enum ReferencesPane {
    NoSelection,
    Loading,
    NoData,
    NoReferences,
    Table,
}

pub open spec fn references_pane_of(m: AppModel) -> ReferencesPane {
    if m.selected is None {
        ReferencesPane::NoSelection
    } else if m.references_loading {
        ReferencesPane::Loading
    } else {
        match m.references {
            None => ReferencesPane::NoData,
            Some(rows) => if rows@.len() == 0 {
                ReferencesPane::NoReferences
            } else {
                ReferencesPane::Table
            },
        }
    }
}

pub fn references_pane(model: &AppModel) -> (p: ReferencesPane)
    ensures
        p == references_pane_of(*model),
{
    if model.selected.is_none() {
        ReferencesPane::NoSelection
    } else if model.references_loading {
        ReferencesPane::Loading
    } else {
        match &model.references {
            None => ReferencesPane::NoData,
            Some(rows) => if rows.len() == 0 {
                ReferencesPane::NoReferences
            } else {
                ReferencesPane::Table
            },
        }
    }
}

/// The line shown in place of the references table.
pub open spec fn references_placeholder_text(p: ReferencesPane) -> Seq<char> {
    match p {
        ReferencesPane::NoSelection => "Select a node in the tree"@,
        ReferencesPane::Loading => "Loading references…"@,
        ReferencesPane::NoData => "No data"@,
        ReferencesPane::NoReferences => "(no references)"@,
        ReferencesPane::Table => ""@,
    }
}

pub fn references_placeholder(p: ReferencesPane) -> (r: &'static str)
    ensures
        r@ == references_placeholder_text(p),
{
    match p {
        ReferencesPane::NoSelection => "Select a node in the tree",
        ReferencesPane::Loading => "Loading references…",
        ReferencesPane::NoData => "No data",
        ReferencesPane::NoReferences => "(no references)",
        ReferencesPane::Table => "",
    }
}

/// The direction column of the references table.
pub fn direction_arrow(is_forward: bool) -> (r: &'static str)
    ensures
        r@ == (if is_forward { "→"@ } else { "←"@ }),
{
    if is_forward {
        "→"
    } else {
        "←"
    }
}

/// The label of the root entry of the address-space tree.
pub open spec fn root_label_text(root: NodeIdView) -> Seq<char> {
    "Root  ("@ + node_id_text(root) + ")"@
}

pub fn root_label(root: &NodeId) -> (r: String)
    ensures
        r@ == root_label_text(root@),
{
    let mut r = String::new();
    push_str(&mut r, "Root  (");
    root.write_text(&mut r);
    push_str(&mut r, ")");
    r
}

/// The label of a child entry: its name and its node class.
pub open spec fn child_label_text(c: TreeChild) -> Seq<char> {
    let name = if c.display_name@.len() == 0 { c.browse_name@ } else { c.display_name@ };
    name + " ["@ + node_class_text(c.node_class) + "]"@
}

pub fn child_label(c: &TreeChild) -> (r: String)
    ensures
        r@ == child_label_text(*c),
{
    let mut r = String::new();
    if c.display_name.as_str().is_empty() {
        push_str(&mut r, c.browse_name.as_str());
    } else {
        push_str(&mut r, c.display_name.as_str());
    }
    push_str(&mut r, " [");
    push_str(&mut r, node_class_name(c.node_class));
    push_str(&mut r, "]");
    r
}

/// The header of a collapsible array or structure value: its label and
/// how many items or fields it holds; `None` for a scalar.
pub open spec fn value_header_text(label: Seq<char>, v: ValueTree) -> Option<Seq<char>> {
    match v {
        ValueTree::Array(items) => Some(label + "  ["@ + decimal(items@.len()) + " items]"@),
        ValueTree::Object(fields) => Some(label + "  {"@ + decimal(fields@.len()) + " fields}"@),
        _ => None,
    }
}

pub fn value_header(label: &str, v: &ValueTree) -> (r: Option<String>)
    ensures
        r matches Some(t) ==> value_header_text(label@, *v) == Some(t@),
        r is None ==> value_header_text(label@, *v) is None,
{
    match v {
        ValueTree::Array(items) => {
            let mut r = String::new();
            push_str(&mut r, label);
            push_str(&mut r, "  [");
            push_decimal(&mut r, items.len() as u64);
            push_str(&mut r, " items]");
            Some(r)
        },
        ValueTree::Object(fields) => {
            let mut r = String::new();
            push_str(&mut r, label);
            push_str(&mut r, "  {");
            push_decimal(&mut r, fields.len() as u64);
            push_str(&mut r, " fields}");
            Some(r)
        },
        _ => None,
    }
}

/// The line shown in place of the node attributes, if any.
pub open spec fn attributes_placeholder_text(m: AppModel) -> Option<Seq<char>> {
    match m.node_summary {
        None => Some("Select a node in the tree"@),
        Some(s) => if s.attributes@.len() == 0 { Some("No readable attributes"@) } else { None },
    }
}

pub fn attributes_placeholder(model: &AppModel) -> (r: Option<&'static str>)
    ensures
        r matches Some(t) ==> attributes_placeholder_text(*model) == Some(t@),
        r is None ==> attributes_placeholder_text(*model) is None,
{
    match &model.node_summary {
        None => Some("Select a node in the tree"),
        Some(s) => if s.attributes.len() == 0 {
            Some("No readable attributes")
        } else {
            None
        },
    }
}

/// Are the credentials of the chosen authentication complete?
pub open spec fn auth_complete(m: AppModel) -> bool {
    match m.auth_mode {
        AuthMode::Anonymous => true,
        AuthMode::UserName => m.auth_username@.len() > 0,
        AuthMode::Certificate => m.auth_cert_path@.len() > 0 && m.auth_key_path@.len() > 0,
    }
}

pub fn auth_ready(model: &AppModel) -> (r: bool)
    ensures
        r == auth_complete(*model),
{
    match model.auth_mode {
        AuthMode::Anonymous => true,
        AuthMode::UserName => !model.auth_username.as_str().is_empty(),
        AuthMode::Certificate => !model.auth_cert_path.as_str().is_empty() && !model.auth_key_path.as_str().is_empty(),
    }
}

/// What tells endpoints apart in the dialog: URL, policy URI and mode.
pub fn endpoint_key(ep: &EndpointInfo) -> (r: (String, String, SecurityMode))
    ensures
        r.0@ == ep.endpoint_url@,
        r.1@ == ep.security_policy_uri@,
        r.2 == ep.security_mode,
{
    (ep.endpoint_url.clone(), ep.security_policy_uri.clone(), ep.security_mode)
}

/// The access tokens an endpoint supports, long form (`Anonymous, UserName,
/// Cert`, or `—`).
pub open spec fn token_list_text(ep: EndpointInfo) -> Seq<char> {
    let parts = (if ep.supports_anonymous { seq!["Anonymous"@] } else { Seq::empty() })
        + (if ep.supports_username { seq!["UserName"@] } else { Seq::empty() })
        + (if ep.supports_certificate { seq!["Cert"@] } else { Seq::empty() });
    if parts.len() == 0 { "—"@ } else { join(parts, ", "@) }
}

pub fn token_label(ep: &EndpointInfo) -> (r: String)
    ensures
        r@ == token_list_text(*ep),
{
    let mut parts: Vec<&str> = Vec::new();
    if ep.supports_anonymous {
        parts.push("Anonymous");
    }
    if ep.supports_username {
        parts.push("UserName");
    }
    if ep.supports_certificate {
        parts.push("Cert");
    }
    proof {
        let ps = (if ep.supports_anonymous { seq!["Anonymous"@] } else { Seq::<Seq<char>>::empty() })
            + (if ep.supports_username { seq!["UserName"@] } else { Seq::<Seq<char>>::empty() })
            + (if ep.supports_certificate { seq!["Cert"@] } else { Seq::<Seq<char>>::empty() });
        assert(parts@.map_values(|p: &str| p@) =~= ps);
    }
    if parts.len() == 0 {
        String::from_str("—")
    } else {
        crate::endpoints::join_strs(&parts, ", ")
    }
}

/// The name shown for a reference's target: its display name, or its
/// browse name when the display name is empty.
pub fn target_label(r: &ReferenceRow) -> (s: &str)
    ensures
        s@ == if r.target_display_name@.len() == 0 { r.target_browse_name@ } else { r.target_display_name@ },
{
    if r.target_display_name.as_str().is_empty() {
        r.target_browse_name.as_str()
    } else {
        r.target_display_name.as_str()
    }
}

/// The stored name of an authentication mode.
pub open spec fn auth_mode_text(m: AuthMode) -> Seq<char> {
    match m {
        AuthMode::Anonymous => "Anonymous"@,
        AuthMode::UserName => "UserName"@,
        AuthMode::Certificate => "Certificate"@,
    }
}

pub fn auth_mode_name(m: AuthMode) -> (r: &'static str)
    ensures
        r@ == auth_mode_text(m),
{
    match m {
        AuthMode::Anonymous => "Anonymous",
        AuthMode::UserName => "UserName",
        AuthMode::Certificate => "Certificate",
    }
}

/// The authentication mode a stored name reads as; anything unknown is
/// anonymous.
pub open spec fn auth_mode_of_text(s: Seq<char>) -> AuthMode {
    if s == "UserName"@ {
        AuthMode::UserName
    } else if s == "Certificate"@ {
        AuthMode::Certificate
    } else {
        AuthMode::Anonymous
    }
}

pub fn auth_mode_from_name(s: &str) -> (m: AuthMode)
    ensures
        m == auth_mode_of_text(s@),
{
    if text_eq(s, "UserName") {
        AuthMode::UserName
    } else if text_eq(s, "Certificate") {
        AuthMode::Certificate
    } else {
        AuthMode::Anonymous
    }
}

/// The node ids that the stored texts read as, skipping those that do not.
pub open spec fn parsed_ids(ids: Seq<Seq<char>>) -> Seq<NodeIdView>
    decreases ids.len(),
{
    if ids.len() == 0 {
        Seq::empty()
    } else {
        match node_id_parse(ids.last()) {
            Ok(id) => parsed_ids(ids.drop_last()).push(id),
            Err(_) => parsed_ids(ids.drop_last()),
        }
    }
}

/// The views of node ids.
pub open spec fn id_views(v: Seq<NodeId>) -> Seq<NodeIdView> {
    v.map_values(|n: NodeId| n@)
}

/// Reads a stored selection path, skipping texts that are not node ids.
pub fn parse_selection_path(ids: &Vec<String>) -> (path: Vec<NodeId>)
    ensures
        id_views(path@) == parsed_ids(string_views(ids@)),
{
    let ghost sv = string_views(ids@);
    let mut path: Vec<NodeId> = Vec::new();
    let mut i: usize = 0;
    while i < ids.len()
        invariant
            0 <= i <= ids@.len(),
            sv == string_views(ids@),
            id_views(path@) == parsed_ids(sv.take(i as int)),
        decreases ids.len() - i,
    {
        assert(sv.take(i + 1).drop_last() =~= sv.take(i as int));
        assert(sv.take(i + 1).last() == ids@[i as int]@);
        match parse_node_id(ids[i].as_str()) {
            Ok(id) => {
                let ghost before = path@;
                path.push(id);
                assert(id_views(path@) =~= id_views(before).push(id@));
            },
            Err(_) => {},
        }
        i = i + 1;
    }
    assert(sv.take(sv.len() as int) =~= sv);
    path
}

/// The stored form of a selection path: each node id as text.
pub fn selection_path_texts(path: &Vec<NodeId>) -> (r: Vec<String>)
    ensures
        string_views(r@) == id_views(path@).map_values(|n: NodeIdView| node_id_text(n)),
{
    let mut r: Vec<String> = Vec::new();
    let mut i: usize = 0;
    while i < path.len()
        invariant
            0 <= i <= path@.len(),
            string_views(r@) == id_views(path@.take(i as int)).map_values(|n: NodeIdView| node_id_text(n)),
        decreases path.len() - i,
    {
        let ghost before = r@;
        let t = path[i].to_text();
        r.push(t);
        assert(string_views(r@) =~= string_views(before).push(t@));
        assert(id_views(path@.take(i + 1)).map_values(|n: NodeIdView| node_id_text(n))
            =~= id_views(path@.take(i as int)).map_values(|n: NodeIdView| node_id_text(n)).push(node_id_text(path@[i as int]@)));
        i = i + 1;
    }
    assert(path@.take(path@.len() as int) =~= path@);
    r
}

/// The selection paths of a map of them, as node-id views.
pub open spec fn path_views(m: Map<Seq<char>, Vec<NodeId>>) -> Map<Seq<char>, Seq<NodeIdView>> {
    m.map_values(|v: Vec<NodeId>| id_views(v@))
}

/// The paths `m` after restoring the stored entries in order: an entry whose
/// texts read as at least one node id sets its URL's path to those ids (a
/// later such entry for the same URL wins); every other URL keeps its path.
pub open spec fn restored_paths(m: Map<Seq<char>, Seq<NodeIdView>>, stored: Seq<(String, Vec<String>)>)
    -> Map<Seq<char>, Seq<NodeIdView>>
    decreases stored.len(),
{
    if stored.len() == 0 {
        m
    } else {
        let before = restored_paths(m, stored.drop_last());
        let p = parsed_ids(string_views(stored.last().1@));
        if p.len() > 0 {
            before.insert(stored.last().0@, p)
        } else {
            before
        }
    }
}

/// Restores the remembered selection paths: each stored entry whose path
/// reads as at least one node id is kept for its URL.
pub fn restore_selection_paths(paths: &mut AssocList<String, Vec<NodeId>>, stored: Vec<(String, Vec<String>)>)
    requires
        old(paths).wf(),
    ensures
        final(paths).wf(),
        path_views(final(paths)@) == restored_paths(path_views(old(paths)@), stored@),
        forall|k: Seq<char>| #[trigger] final(paths)@.contains_key(k) <==> (old(paths)@.contains_key(k)
            || exists|i: int| 0 <= i < stored@.len() && stored@[i].0@ == k
                && parsed_ids(string_views(stored@[i].1@)).len() > 0),
{
    let ghost all = stored@;
    let mut rest = stored;
    let total = rest.len();
    let mut k: usize = 0;
    while rest.len() > 0
        invariant
            total == all.len(),
            k + rest@.len() == all.len(),
            rest@ == all.skip(k as int),
            paths.wf(),
            path_views(paths@) == restored_paths(path_views(old(paths)@), all.take(k as int)),
            forall|key: Seq<char>| #[trigger] paths@.contains_key(key) <==> (old(paths)@.contains_key(key)
                || exists|i: int| 0 <= i < k && all[i].0@ == key && parsed_ids(string_views(all[i].1@)).len() > 0),
        decreases rest.len(),
    {
        let (url, ids) = rest.remove(0);
        proof {
            assert(all[k as int] == (url, ids));
        }
        let ghost before = paths@;
        let path = parse_selection_path(&ids);
        proof {
            assert(all.take(k + 1).drop_last() =~= all.take(k as int));
            assert(all.take(k + 1).last() == all[k as int]);
        }
        if path.len() > 0 {
            let ghost u = url@;
            let ghost pv = path@;
            paths.insert(url, path);
            assert(path_views(paths@) =~= path_views(before).insert(u, id_views(pv)));
            assert forall|key: Seq<char>| #[trigger] paths@.contains_key(key) <==> (old(paths)@.contains_key(key)
                || exists|i: int| 0 <= i < k + 1 && all[i].0@ == key && parsed_ids(string_views(all[i].1@)).len() > 0) by {
                if key == u {
                    assert(all[k as int].0@ == key);
                }
                if exists|i: int| 0 <= i < k + 1 && all[i].0@ == key && parsed_ids(string_views(all[i].1@)).len() > 0 {
                    let i = choose|i: int| 0 <= i < k + 1 && all[i].0@ == key && parsed_ids(string_views(all[i].1@)).len() > 0;
                    if i < k {
                        assert(before.contains_key(key));
                    }
                }
            }
        } else {
            assert forall|key: Seq<char>| #[trigger] paths@.contains_key(key) <==> (old(paths)@.contains_key(key)
                || exists|i: int| 0 <= i < k + 1 && all[i].0@ == key && parsed_ids(string_views(all[i].1@)).len() > 0) by {
                if exists|i: int| 0 <= i < k + 1 && all[i].0@ == key && parsed_ids(string_views(all[i].1@)).len() > 0 {
                    let i = choose|i: int| 0 <= i < k + 1 && all[i].0@ == key && parsed_ids(string_views(all[i].1@)).len() > 0;
                    assert(i != k);
                }
            }
        }
        assert(rest@ =~= all.skip(k + 1));
        k = k + 1;
    }
    assert(all.take(k as int) =~= all);
}

} // verus!
