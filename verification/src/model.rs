//! The application model: connection, address-space tree, selection,
//! endpoints, credentials, dialogs and the log.
use std::collections::VecDeque;
use vstd::prelude::*;
use crate::collections::{AssocList, KeySet};
use crate::node_id::{NodeId, NodeIdView};
use crate::parse::VariantInput;
use crate::text::{trim, trim_string};
use crate::types::{
    AuthMode, EndpointInfo, LogLine, MethodCallOutcome, MethodSignature, NodeSummary, ReferenceRow,
    SecurityMode, SubscriptionRow, TreeChild, WriteTarget,
};

verus! {

/// The method-call dialog.
pub enum MethodCallState {
    Loading { node: NodeId },
    Failed { node: NodeId, error: String },
    Inputs {
        node: NodeId,
        signature: MethodSignature,
        edited: Vec<String>,
        field_errors: Vec<Option<String>>,
        call_error: Option<String>,
    },
    Calling { node: NodeId, signature: MethodSignature, edited: Vec<String> },
    Result { node: NodeId, signature: MethodSignature, edited: Vec<String>, outcome: MethodCallOutcome },
}

/// The node a method-call dialog is about.
pub open spec fn method_call_node(s: MethodCallState) -> NodeId {
    match s {
        MethodCallState::Loading { node } => node,
        MethodCallState::Failed { node, .. } => node,
        MethodCallState::Inputs { node, .. } => node,
        MethodCallState::Calling { node, .. } => node,
        MethodCallState::Result { node, .. } => node,
    }
}

impl MethodCallState {
    pub fn node(&self) -> (r: &NodeId)
        ensures
            *r == method_call_node(*self),
    {
        match self {
            MethodCallState::Loading { node } => node,
            MethodCallState::Failed { node, .. } => node,
            MethodCallState::Inputs { node, .. } => node,
            MethodCallState::Calling { node, .. } => node,
            MethodCallState::Result { node, .. } => node,
        }
    }
}

/// The attribute-edit dialog.
pub enum AttributeEditState {
    Loading { node: NodeId, attr_name: String },
    Failed { node: NodeId, attr_name: String, error: String },
    Inputs {
        node: NodeId,
        attr_name: String,
        target: WriteTarget,
        edited: String,
        field_error: Option<String>,
        write_error: Option<String>,
    },
    Writing { node: NodeId, attr_name: String, target: WriteTarget, edited: String },
}

impl AttributeEditState {
    pub fn node(&self) -> (r: &NodeId)
        ensures
            *r == match *self {
                AttributeEditState::Loading { node, .. } => node,
                AttributeEditState::Failed { node, .. } => node,
                AttributeEditState::Inputs { node, .. } => node,
                AttributeEditState::Writing { node, .. } => node,
            },
    {
        match self {
            AttributeEditState::Loading { node, .. } => node,
            AttributeEditState::Failed { node, .. } => node,
            AttributeEditState::Inputs { node, .. } => node,
            AttributeEditState::Writing { node, .. } => node,
        }
    }

    pub fn attr_name(&self) -> (r: &str)
        ensures
            r@ == match *self {
                AttributeEditState::Loading { attr_name, .. } => attr_name@,
                AttributeEditState::Failed { attr_name, .. } => attr_name@,
                AttributeEditState::Inputs { attr_name, .. } => attr_name@,
                AttributeEditState::Writing { attr_name, .. } => attr_name@,
            },
    {
        match self {
            AttributeEditState::Loading { attr_name, .. } => attr_name.as_str(),
            AttributeEditState::Failed { attr_name, .. } => attr_name.as_str(),
            AttributeEditState::Inputs { attr_name, .. } => attr_name.as_str(),
            AttributeEditState::Writing { attr_name, .. } => attr_name.as_str(),
        }
    }
}

/// At most this many log lines are kept.
pub const MAX_LOG_LINES: usize = 1000;
/// At most this many endpoint URLs are remembered.
pub const MAX_HISTORY: usize = 20;

#[derive(PartialEq, Eq, Structural, Clone, Copy, Debug)]
pub enum ConnectionState {
    Disconnected,
    Connecting,
    Connected,
    Reconnecting,
    Disconnecting,
}

#[derive(PartialEq, Eq, Structural, Clone, Copy, Debug)]
pub enum DetailTab {
    Attributes,
    Events,
    DataChanges,
    Subscriptions,
    References,
}

/// The loaded part of the address space.
pub struct TreeModel {
    pub children: AssocList<NodeId, Vec<TreeChild>>,
    pub expanded: KeySet<NodeId>,
    pub loading: KeySet<NodeId>,
}

impl TreeModel {
    pub fn new() -> (t: Self)
        ensures
            t.wf(),
            t.children@ == Map::<NodeIdView, Vec<TreeChild>>::empty(),
            t.expanded@ == Set::<NodeIdView>::empty(),
            t.loading@ == Set::<NodeIdView>::empty(),
    {
        TreeModel { children: AssocList::new(), expanded: KeySet::new(), loading: KeySet::new() }
    }

    pub open spec fn wf(&self) -> bool {
        self.children.wf()
    }

    pub fn clear(&mut self)
        ensures
            final(self).wf(),
            final(self).children@ == Map::<NodeIdView, Vec<TreeChild>>::empty(),
            final(self).expanded@ == Set::<NodeIdView>::empty(),
            final(self).loading@ == Set::<NodeIdView>::empty(),
    {
        self.children.clear();
        self.expanded.clear();
        self.loading.clear();
    }
}

/// The connection settings last used for a URL (passwords are not kept).
pub struct ConnectionPrefs {
    pub auth_mode: AuthMode,
    pub security_mode: SecurityMode,
    pub username: String,
    pub cert_path: String,
    pub key_path: String,
}

impl Clone for ConnectionPrefs {
    fn clone(&self) -> (r: Self)
        ensures
            r == *self,
    {
        ConnectionPrefs {
            auth_mode: self.auth_mode,
            security_mode: self.security_mode,
            username: self.username.clone(),
            cert_path: self.cert_path.clone(),
            key_path: self.key_path.clone(),
        }
    }
}

impl Default for ConnectionPrefs {
    fn default() -> (r: Self)
        ensures
            r.auth_mode == AuthMode::Anonymous,
            r.security_mode == SecurityMode::NoSecurity,
            r.username@ == Seq::<char>::empty(),
            r.cert_path@ == Seq::<char>::empty(),
            r.key_path@ == Seq::<char>::empty(),
    {
        ConnectionPrefs {
            auth_mode: AuthMode::Anonymous,
            security_mode: SecurityMode::NoSecurity,
            username: String::new(),
            cert_path: String::new(),
            key_path: String::new(),
        }
    }
}

/// Everything the front ends display and the engine decides on.
pub struct AppModel {
    pub endpoint_url: String,
    pub endpoint_history: Vec<String>,
    pub connection: ConnectionState,
    pub root_node: NodeId,
    pub tree: TreeModel,
    pub selected: Option<NodeId>,
    pub node_summary: Option<NodeSummary>,
    pub active_tab: DetailTab,
    pub references: Option<Vec<ReferenceRow>>,
    pub references_loading: bool,
    pub log: VecDeque<LogLine>,
    pub selected_endpoint: Option<EndpointInfo>,
    pub endpoints_loading: bool,
    pub discovered_endpoints: Option<Vec<EndpointInfo>>,
    pub endpoints_dialog_open: bool,
    pub auth_mode: AuthMode,
    pub auth_username: String,
    pub auth_password: String,
    pub auth_cert_path: String,
    pub auth_key_path: String,
    pub last_selection_paths: AssocList<String, Vec<NodeId>>,
    pub last_connection_selections: AssocList<String, ConnectionPrefs>,
    pub endpoint_mode_filter: SecurityMode,
    pub file_picker_open: bool,
    pub method_call: Option<MethodCallState>,
    pub subscriptions: Vec<SubscriptionRow>,
    pub subscribing: KeySet<NodeId>,
    pub attr_edit: Option<AttributeEditState>,
}

/// The views of a vector of strings.
pub open spec fn views(v: Seq<String>) -> Seq<Seq<char>> {
    v.map_values(|s: String| s@)
}

/// `s` without the elements equal to `x` (`Vec::retain(|u| u != x)`).
pub open spec fn without(s: Seq<Seq<char>>, x: Seq<char>) -> Seq<Seq<char>>
    decreases s.len(),
{
    if s.len() == 0 {
        s
    } else if s.last() == x {
        without(s.drop_last(), x)
    } else {
        without(s.drop_last(), x).push(s.last())
    }
}

/// The history after a successful connection to `url`: `url` first, then
/// the earlier entries other than `url`, at most `MAX_HISTORY` in all.
pub open spec fn history_after(hist: Seq<Seq<char>>, url: Seq<char>) -> Seq<Seq<char>> {
    let h = seq![url] + without(hist, url);
    if h.len() > MAX_HISTORY { h.take(MAX_HISTORY as int) } else { h }
}

/// The settings recorded for a URL after connecting with them.
pub open spec fn prefs_of(m: AppModel) -> ConnectionPrefs {
    ConnectionPrefs {
        auth_mode: m.auth_mode,
        security_mode: m.endpoint_mode_filter,
        username: m.auth_username,
        cert_path: m.auth_cert_path,
        key_path: m.auth_key_path,
    }
}

/// `b` is `a` after a successful connection was recorded.
pub open spec fn recorded(a: AppModel, b: AppModel) -> bool {
    if trim(a.endpoint_url@).len() == 0 {
        b == a
    } else {
        &&& views(b.endpoint_history@) == history_after(views(a.endpoint_history@), trim(a.endpoint_url@))
        &&& b.last_connection_selections@ == a.last_connection_selections@.insert(trim(a.endpoint_url@), prefs_of(a))
        &&& b == (AppModel {
            endpoint_history: b.endpoint_history,
            last_connection_selections: b.last_connection_selections,
            ..a
        })
    }
}

/// `b` is `a` with everything of the session with a server forgotten.
pub open spec fn session_reset(a: AppModel, b: AppModel) -> bool {
    &&& b.tree.children@ == Map::<NodeIdView, Vec<TreeChild>>::empty()
    &&& b.tree.expanded@ == Set::<NodeIdView>::empty()
    &&& b.tree.loading@ == Set::<NodeIdView>::empty()
    &&& b.subscriptions@ == Seq::<SubscriptionRow>::empty()
    &&& b.subscribing@ == Set::<NodeIdView>::empty()
    &&& b == (AppModel {
        tree: b.tree,
        selected: None,
        node_summary: None,
        references: None,
        references_loading: false,
        method_call: None,
        subscriptions: b.subscriptions,
        subscribing: b.subscribing,
        attr_edit: None,
        ..a
    })
}

/// `b` is `a` with the settings remembered for its URL restored, if any.
pub open spec fn prefs_applied(a: AppModel, b: AppModel) -> bool {
    if a.last_connection_selections@.contains_key(a.endpoint_url@) {
        let p = a.last_connection_selections@[a.endpoint_url@];
        b == (AppModel {
            auth_mode: p.auth_mode,
            endpoint_mode_filter: p.security_mode,
            auth_username: p.username,
            auth_cert_path: p.cert_path,
            auth_key_path: p.key_path,
            ..a
        })
    } else {
        b == a
    }
}

/// The model a front end starts with: the default URL, nothing loaded,
/// disconnected, anonymous, no dialogs open.
pub open spec fn is_initial(m: AppModel) -> bool {
    &&& m.endpoint_url@ == "opc.tcp://localhost:4855"@
    &&& m.endpoint_history@ == Seq::<String>::empty()
    &&& m.connection == ConnectionState::Disconnected
    &&& m.root_node@ == (NodeIdView { namespace: 0, identifier: crate::node_id::IdentifierView::Numeric(84) })
    &&& m.tree.children@ == Map::<NodeIdView, Vec<TreeChild>>::empty()
    &&& m.tree.expanded@ == Set::<NodeIdView>::empty()
    &&& m.tree.loading@ == Set::<NodeIdView>::empty()
    &&& m.selected is None
    &&& m.node_summary is None
    &&& m.active_tab == DetailTab::References
    &&& m.references is None
    &&& !m.references_loading
    &&& m.log@ == Seq::<LogLine>::empty()
    &&& m.selected_endpoint is None
    &&& !m.endpoints_loading
    &&& m.discovered_endpoints is None
    &&& !m.endpoints_dialog_open
    &&& m.auth_mode == AuthMode::Anonymous
    &&& m.auth_username@ == Seq::<char>::empty()
    &&& m.auth_password@ == Seq::<char>::empty()
    &&& m.auth_cert_path@ == Seq::<char>::empty()
    &&& m.auth_key_path@ == Seq::<char>::empty()
    &&& m.last_selection_paths@ == Map::<Seq<char>, Vec<NodeId>>::empty()
    &&& m.last_connection_selections@ == Map::<Seq<char>, ConnectionPrefs>::empty()
    &&& m.endpoint_mode_filter == SecurityMode::NoSecurity
    &&& !m.file_picker_open
    &&& m.method_call is None
    &&& m.subscriptions@ == Seq::<SubscriptionRow>::empty()
    &&& m.subscribing@ == Set::<NodeIdView>::empty()
    &&& m.attr_edit is None
}

impl AppModel {
    /// The model's collections are well formed and the log is bounded.
    pub open spec fn wf(&self) -> bool {
        &&& self.tree.wf()
        &&& self.last_selection_paths.wf()
        &&& self.last_connection_selections.wf()
        &&& self.log@.len() <= MAX_LOG_LINES
    }

    /// The initial model.
    pub fn new() -> (m: Self)
        ensures
            m.wf(),
            is_initial(m),
    {
        AppModel {
            endpoint_url: "opc.tcp://localhost:4855".to_owned(),
            endpoint_history: Vec::new(),
            connection: ConnectionState::Disconnected,
            root_node: NodeId::root_folder(),
            tree: TreeModel::new(),
            selected: None,
            node_summary: None,
            active_tab: DetailTab::References,
            references: None,
            references_loading: false,
            log: VecDeque::new(),
            selected_endpoint: None,
            endpoints_loading: false,
            discovered_endpoints: None,
            endpoints_dialog_open: false,
            auth_mode: AuthMode::Anonymous,
            auth_username: String::new(),
            auth_password: String::new(),
            auth_cert_path: String::new(),
            auth_key_path: String::new(),
            last_selection_paths: AssocList::new(),
            last_connection_selections: AssocList::new(),
            endpoint_mode_filter: SecurityMode::NoSecurity,
            file_picker_open: false,
            method_call: None,
            subscriptions: Vec::new(),
            subscribing: KeySet::new(),
            attr_edit: None,
        }
    }

    /// Appends a log line, dropping the oldest when the log is full.
    pub fn push_log(&mut self, line: LogLine)
        requires
            old(self).wf(),
        ensures
            final(self).wf(),
            final(self).log@ == (if old(self).log@.len() == MAX_LOG_LINES {
                old(self).log@.drop_first()
            } else {
                old(self).log@
            }).push(line),
            *final(self) == (AppModel { log: final(self).log, ..*old(self) }),
    {
        if self.log.len() == MAX_LOG_LINES {
            let _ = self.log.pop_front();
            assert(self.log@ =~= old(self).log@.drop_first());
        }
        self.log.push_back(line);
    }

    /// Forgets everything that belongs to a session with a server.
    pub fn reset_session_state(&mut self)
        requires
            old(self).wf(),
        ensures
            final(self).wf(),
            session_reset(*old(self), *final(self)),
    {
        self.tree.clear();
        self.selected = None;
        self.node_summary = None;
        self.references = None;
        self.references_loading = false;
        self.method_call = None;
        self.subscriptions.clear();
        self.subscribing.clear();
        self.attr_edit = None;
    }

    /// Records the current URL (trimmed) at the head of the history and
    /// remembers the connection settings used for it; a blank URL is ignored.
    pub fn record_successful_connection(&mut self)
        requires
            old(self).wf(),
        ensures
            final(self).wf(),
            recorded(*old(self), *final(self)),
    {
        let url = trim_string(self.endpoint_url.as_str());
        if url.as_str().is_empty() {
            return;
        }
        let ghost u = url@;
        let ghost h0 = views(self.endpoint_history@);
        // Drop earlier occurrences of the URL, keeping the order of the rest.
        let mut kept: Vec<String> = Vec::new();
        let mut i: usize = 0;
        while i < self.endpoint_history.len()
            invariant
                0 <= i <= self.endpoint_history@.len(),
                h0 == views(self.endpoint_history@),
                url@ == u,
                views(kept@) == without(h0.take(i as int), u),
            decreases self.endpoint_history.len() - i,
        {
            assert(h0.take(i + 1).drop_last() =~= h0.take(i as int));
            assert(h0.take(i + 1).last() == self.endpoint_history@[i as int]@);
            if self.endpoint_history[i] != url {
                let ghost before = views(kept@);
                kept.push(self.endpoint_history[i].clone());
                assert(views(kept@) =~= before.push(self.endpoint_history@[i as int]@));
            }
            i = i + 1;
        }
        assert(h0.take(h0.len() as int) =~= h0);
        let ghost w = views(kept@);
        kept.insert(0, url.clone());
        assert(views(kept@) =~= seq![u] + w);
        kept.truncate(MAX_HISTORY);
        assert(views(kept@) =~= history_after(h0, u));
        self.endpoint_history = kept;
        let prefs = ConnectionPrefs {
            auth_mode: self.auth_mode,
            security_mode: self.endpoint_mode_filter,
            username: self.auth_username.clone(),
            cert_path: self.auth_cert_path.clone(),
            key_path: self.auth_key_path.clone(),
        };
        self.last_connection_selections.insert(url, prefs);
    }

    /// Restores the connection settings remembered for the current URL, if any.
    pub fn apply_saved_connection_prefs(&mut self)
        requires
            old(self).wf(),
        ensures
            final(self).wf(),
            prefs_applied(*old(self), *final(self)),
    {
        let prefs = match self.last_connection_selections.get(&self.endpoint_url) {
            Some(p) => p.clone(),
            None => {
                return;
            },
        };
        self.auth_mode = prefs.auth_mode;
        self.endpoint_mode_filter = prefs.security_mode;
        self.auth_username = prefs.username;
        self.auth_cert_path = prefs.cert_path;
        self.auth_key_path = prefs.key_path;
    }
}

} // verus!
