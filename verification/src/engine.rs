//! The engine: how the model answers what the user does and what the
//! server reports, and which outside work each step asks for.
use vstd::prelude::*;
use crate::endpoints::{first_matching_endpoint, first_offered};
use crate::model::{method_call_node, AppModel, ConnectionState, DetailTab, MethodCallState};
use crate::node_id::{node_id_text, NodeId, NodeIdView};
use crate::parse::{parse_variant, variant_parse, VariantInput, VariantView};
use crate::render::{clip_text, render_value_for_clipboard};
use crate::types::{
    AuthMode, AuthSpec, EndpointInfo, LogLine, MethodCallOutcome, MethodSignature, NodeAttribute, NodeSummary,
    ReferenceRow, SecurityMode, SubscriptionRow, TreeChild,
};

verus! {

/// Which path a file picker fills in.
#[derive(PartialEq, Eq, Structural, Clone, Copy, Debug)]
pub enum FilePickTarget {
    CertPath,
    KeyPath,
}

/// What the user does.
pub enum UiAction {
    EndpointEdited(String),
    ConnectClicked,
    DisconnectClicked,
    NodeToggleExpand(NodeId),
    NodeSelected(NodeId),
    TabSelected(DetailTab),
    RefreshClicked,
    OpenEndpointPicker,
    CloseEndpointPicker,
    ForceRefreshEndpoints,
    SelectEndpoint(EndpointInfo),
    ClearSelectedEndpoint,
    SetAuthMode(AuthMode),
    SetEndpointModeFilter(SecurityMode),
    AuthUsernameEdited(String),
    AuthPasswordEdited(String),
    AuthCertPathEdited(String),
    AuthKeyPathEdited(String),
    PickAuthCertPath,
    PickAuthKeyPath,
    ConfirmConnect,
    CopyPath(NodeId),
    CopyNodeId(NodeId),
    CopyNodeValue,
    ClearSelection,
    OpenMethodCall(NodeId),
    CloseMethodCall,
    MethodArgEdited { index: usize, value: String },
    CallMethodConfirmed,
    Subscribe(NodeId),
    Unsubscribe(NodeId),
}

/// What the outside work reports back.
pub enum UiUpdate {
    ConnectStarted,
    ConnectFinished(Result<(), String>),
    DisconnectStarted,
    DisconnectFinished,
    ChildrenLoaded { parent: NodeId, children: Result<Vec<TreeChild>, String> },
    SummaryLoaded { node: NodeId, summary: Result<NodeSummary, String> },
    ReferencesLoaded { node: NodeId, refs: Result<Vec<ReferenceRow>, String> },
    EndpointsDiscovered { url: String, result: Result<Vec<EndpointInfo>, String> },
    CertPathPicked(String),
    KeyPathPicked(String),
    FilePickerClosed,
    PathReady { node: NodeId, path: Result<String, String> },
    SelectionPathResolved { url: String, path: Vec<NodeId> },
    RestoreSelection(NodeId),
    MethodSignatureLoaded { node: NodeId, result: Result<MethodSignature, String> },
    MethodCallFinished { node: NodeId, result: Result<MethodCallOutcome, String> },
    SubscribeFinished { node: NodeId, result: Result<String, String> },
    UnsubscribeFinished { node: NodeId, result: Result<(), String> },
    DataChange { node: NodeId, value: String, status: String, timestamp: Option<String> },
    Log(LogLine),
}

/// Outside work that a step asks for; its outcome comes back as a `UiUpdate`.
pub enum Effect {
    /// Browse the hierarchical children of a node (`ChildrenLoaded`).
    BrowseChildren(NodeId),
    /// Read all attributes of a node (`SummaryLoaded`).
    ReadNodeSummary(NodeId),
    /// Browse all references of a node (`ReferencesLoaded`).
    BrowseReferences(NodeId),
    /// Find the ancestor chain of a node, remembered for `url` (`SelectionPathResolved`).
    ResolveSelectionPath { url: String, node: NodeId },
    /// Load the children along a remembered chain, then select its last
    /// node, step by step as `browse::chain_start` and `browse::chain_step`
    /// decide (`laws::chain_loading_law`).
    RestoreSelection(Vec<NodeId>),
    /// Resolve a textual browse path to a node (`browse::PathWalk`), find the
    /// chain down to it (`browse::AncestorWalk`), then load that chain as
    /// `RestoreSelection` does, from `browse::path_chain_start`.
    NavigateToPath(String),
    /// Report `ConnectStarted`, then connect (`ConnectFinished`).
    Connect { url: String, endpoint: Option<EndpointInfo>, auth: AuthSpec },
    /// Ask a server for its endpoints (`EndpointsDiscovered`).
    DiscoverEndpoints(String),
    /// Report `DisconnectStarted`, then disconnect (`DisconnectFinished`).
    Disconnect,
    /// Build the browse path text of a node (`PathReady`).
    BrowsePath(NodeId),
    /// Put text on the clipboard.
    SetClipboard(String),
    /// Open a file picker (`CertPathPicked`/`KeyPathPicked`, then `FilePickerClosed`).
    PickFile { target: FilePickTarget, title: String, default_dir: String },
    /// Read a method's signature (`MethodSignatureLoaded`).
    ReadMethodSignature(NodeId),
    /// Call a method (`MethodCallFinished`).
    CallMethod { parent: NodeId, method: NodeId, inputs: Vec<VariantInput>, node: NodeId },
    /// Monitor a node's value (`SubscribeFinished`, then `DataChange`s).
    Subscribe(NodeId),
    /// Stop monitoring a node (`UnsubscribeFinished`).
    Unsubscribe(NodeId),
}

/// The engine's state: the model.
pub struct Engine {
    pub model: AppModel,
}

/// `b` equals `a` except for the tree's expanded and loading sets, which are `exp` and `load`.
pub open spec fn tree_sets_become(a: AppModel, b: AppModel, exp: Set<NodeIdView>, load: Set<NodeIdView>) -> bool {
    &&& b == (AppModel { tree: b.tree, ..a })
    &&& b.tree.children == a.tree.children
    &&& b.tree.expanded@ == exp
    &&& b.tree.loading@ == load
}

/// Making sure a node is expanded: expand it at once when its children are
/// known, otherwise ask for them unless they are being loaded already.
pub open spec fn expand_post(a: AppModel, b: AppModel, n: NodeId, eff: Seq<Effect>) -> bool {
    if a.tree.expanded@.contains(n@) {
        b == a && eff == Seq::<Effect>::empty()
    } else if a.tree.children@.contains_key(n@) {
        tree_sets_become(a, b, a.tree.expanded@.insert(n@), a.tree.loading@) && eff == Seq::<Effect>::empty()
    } else if !a.tree.loading@.contains(n@) {
        tree_sets_become(a, b, a.tree.expanded@, a.tree.loading@.insert(n@)) && eff == seq![Effect::BrowseChildren(n)]
    } else {
        b == a && eff == Seq::<Effect>::empty()
    }
}

/// Toggling a node: collapse it when expanded, otherwise as `expand_post`.
pub open spec fn toggle_post(a: AppModel, b: AppModel, n: NodeId, eff: Seq<Effect>) -> bool {
    if a.tree.expanded@.contains(n@) {
        tree_sets_become(a, b, a.tree.expanded@.remove(n@), a.tree.loading@) && eff == Seq::<Effect>::empty()
    } else {
        expand_post(a, b, n, eff)
    }
}

/// The references tab asks for the references of `n`: they are marked loading.
pub open spec fn refs_effects(tab: DetailTab, n: NodeId) -> Seq<Effect> {
    if tab == DetailTab::References { seq![Effect::BrowseReferences(n)] } else { Seq::empty() }
}

pub open spec fn refs_loading_after(a: AppModel) -> bool {
    if a.active_tab == DetailTab::References { true } else { a.references_loading }
}

/// Selecting a node: it becomes the selection, its details are dropped and
/// read again, and its ancestor chain is resolved for the current URL.
pub open spec fn select_post(a: AppModel, b: AppModel, n: NodeId, eff: Seq<Effect>) -> bool {
    &&& b == (AppModel {
        selected: Some(n),
        node_summary: None,
        references: None,
        references_loading: refs_loading_after(a),
        ..a
    })
    &&& eff == seq![Effect::ReadNodeSummary(n)] + refs_effects(a.active_tab, n)
        + seq![Effect::ResolveSelectionPath { url: a.endpoint_url, node: n }]
}

/// Discovering endpoints: the list is emptied and marked loading.
pub open spec fn discover_post(a: AppModel, b: AppModel, eff: Seq<Effect>) -> bool {
    &&& b == (AppModel { endpoints_loading: true, discovered_endpoints: None, ..a })
    &&& eff == seq![Effect::DiscoverEndpoints(a.endpoint_url)]
}

/// Opening the endpoint picker, discovering endpoints when none are known or loading.
pub open spec fn picker_post(a: AppModel, b: AppModel, eff: Seq<Effect>) -> bool {
    let opened = AppModel { endpoints_dialog_open: true, ..a };
    if a.discovered_endpoints is None && !a.endpoints_loading {
        discover_post(opened, b, eff)
    } else {
        b == opened && eff == Seq::<Effect>::empty()
    }
}

/// The credentials of the model.
pub open spec fn auth_of(a: AppModel) -> AuthSpec {
    AuthSpec {
        mode: a.auth_mode,
        username: a.auth_username,
        password: a.auth_password,
        cert_path: a.auth_cert_path,
        key_path: a.auth_key_path,
    }
}

/// Connecting to the current URL with the selected endpoint and the credentials.
pub open spec fn connect_effect(a: AppModel) -> Effect {
    Effect::Connect { url: a.endpoint_url, endpoint: a.selected_endpoint, auth: auth_of(a) }
}

/// The selected endpoint after the endpoint list or the mode filter changes.
pub open spec fn reselect(a: AppModel) -> AppModel {
    match a.discovered_endpoints {
        Some(eps) => AppModel { selected_endpoint: first_offered(eps@, a.endpoint_mode_filter), ..a },
        None => a,
    }
}

impl Engine {
    pub fn new() -> (e: Self)
        ensures
            e.model.wf(),
            crate::model::is_initial(e.model),
    {
        Engine { model: AppModel::new() }
    }

    /// Going to a textual browse path (`--path`) is outside work; the model
    /// changes when its result comes back.
    pub fn navigate_to_textual_path(&self, path: String) -> (eff: Vec<Effect>)
        ensures
            eff@.len() == 1,
            eff@[0] matches Effect::NavigateToPath(p) && p == path,
    {
        let mut eff: Vec<Effect> = Vec::new();
        eff.push(Effect::NavigateToPath(path));
        eff
    }

    fn ensure_expanded(&mut self, node: NodeId) -> (eff: Vec<Effect>)
        requires
            old(self).model.wf(),
        ensures
            final(self).model.wf(),
            expand_post(old(self).model, final(self).model, node, eff@),
    {
        let mut eff: Vec<Effect> = Vec::new();
        if self.model.tree.expanded.contains(&node) {
            return eff;
        }
        if self.model.tree.children.contains_key(&node) {
            self.model.tree.expanded.insert(node);
        } else if !self.model.tree.loading.contains(&node) {
            self.model.tree.loading.insert(node.clone());
            eff.push(Effect::BrowseChildren(node));
        }
        eff
    }

    fn toggle_expand(&mut self, node: NodeId) -> (eff: Vec<Effect>)
        requires
            old(self).model.wf(),
        ensures
            final(self).model.wf(),
            toggle_post(old(self).model, final(self).model, node, eff@),
    {
        if self.model.tree.expanded.contains(&node) {
            self.model.tree.expanded.remove(&node);
            Vec::new()
        } else {
            self.ensure_expanded(node)
        }
    }

    fn select_node(&mut self, node: NodeId) -> (eff: Vec<Effect>)
        requires
            old(self).model.wf(),
        ensures
            final(self).model.wf(),
            select_post(old(self).model, final(self).model, node, eff@),
    {
        let mut eff: Vec<Effect> = Vec::new();
        self.model.selected = Some(node.clone());
        self.model.node_summary = None;
        self.model.references = None;
        eff.push(Effect::ReadNodeSummary(node.clone()));
        if self.model.active_tab == DetailTab::References {
            self.model.references_loading = true;
            eff.push(Effect::BrowseReferences(node.clone()));
        }
        eff.push(Effect::ResolveSelectionPath { url: self.model.endpoint_url.clone(), node });
        assert(eff@ =~= seq![Effect::ReadNodeSummary(node)] + refs_effects(old(self).model.active_tab, node)
            + seq![Effect::ResolveSelectionPath { url: old(self).model.endpoint_url, node }]);
        eff
    }

    fn spawn_discover_endpoints(&mut self) -> (eff: Vec<Effect>)
        requires
            old(self).model.wf(),
        ensures
            final(self).model.wf(),
            discover_post(old(self).model, final(self).model, eff@),
    {
        self.model.endpoints_loading = true;
        self.model.discovered_endpoints = None;
        let mut eff: Vec<Effect> = Vec::new();
        eff.push(Effect::DiscoverEndpoints(self.model.endpoint_url.clone()));
        eff
    }

    fn open_endpoint_picker(&mut self) -> (eff: Vec<Effect>)
        requires
            old(self).model.wf(),
        ensures
            final(self).model.wf(),
            picker_post(old(self).model, final(self).model, eff@),
    {
        self.model.endpoints_dialog_open = true;
        if self.model.discovered_endpoints.is_none() && !self.model.endpoints_loading {
            self.spawn_discover_endpoints()
        } else {
            Vec::new()
        }
    }

    fn select_first_matching_endpoint(&mut self)
        requires
            old(self).model.wf(),
        ensures
            final(self).model.wf(),
            final(self).model == reselect(old(self).model),
    {
        let chosen = match &self.model.discovered_endpoints {
            Some(eps) => first_matching_endpoint(eps, self.model.endpoint_mode_filter),
            None => {
                return;
            },
        };
        self.model.selected_endpoint = chosen;
    }

    fn connect_request(&self) -> (e: Effect)
        ensures
            e == connect_effect(self.model),
    {
        let endpoint = match &self.model.selected_endpoint {
            Some(ep) => Some(ep.clone()),
            None => None,
        };
        Effect::Connect {
            url: self.model.endpoint_url.clone(),
            endpoint,
            auth: AuthSpec {
                mode: self.model.auth_mode,
                username: self.model.auth_username.clone(),
                password: self.model.auth_password.clone(),
                cert_path: self.model.auth_cert_path.clone(),
                key_path: self.model.auth_key_path.clone(),
            },
        }
    }

    /// Does the method-call dialog exist and concern `node`?
    fn method_call_targets(&self, node: &NodeId) -> (r: bool)
        ensures
            r == (self.model.method_call matches Some(s) && method_call_node(s)@ == node@),
    {
        match &self.model.method_call {
            Some(s) => s.node().same(node),
            None => false,
        }
    }
}

/// Is some subscription row about node `n`?
pub open spec fn has_row(rows: Seq<SubscriptionRow>, n: NodeIdView) -> bool {
    exists|i: int| 0 <= i < rows.len() && #[trigger] rows[i].node_id@ == n
}

/// The rows not about node `n`, in order.
pub open spec fn rows_without(rows: Seq<SubscriptionRow>, n: NodeIdView) -> Seq<SubscriptionRow>
    decreases rows.len(),
{
    if rows.len() == 0 {
        rows
    } else if rows.last().node_id@ == n {
        rows_without(rows.drop_last(), n)
    } else {
        rows_without(rows.drop_last(), n).push(rows.last())
    }
}

/// A new subscription row: no value received yet.
pub open spec fn pending_row(r: SubscriptionRow, node: NodeId, name: String) -> bool {
    &&& r.node_id == node
    &&& r.display_name == name
    &&& r.value@ == "<pending>"@
    &&& r.status@ == Seq::<char>::empty()
    &&& r.timestamp is None
}

/// A fresh input form for a method signature: one empty text and no error per input.
pub open spec fn fresh_inputs(st: Option<MethodCallState>, node: NodeId, sig: MethodSignature) -> bool {
    &&& st matches Some(MethodCallState::Inputs { node: n2, signature: s2, edited, field_errors, call_error })
    &&& n2 == node && s2 == sig && call_error is None
    &&& edited@.len() == sig.inputs@.len()
    &&& forall|i: int| 0 <= i < edited@.len() ==> (#[trigger] edited@[i])@ == Seq::<char>::empty()
    &&& field_errors@.len() == sig.inputs@.len()
    &&& forall|i: int| 0 <= i < field_errors@.len() ==> (#[trigger] field_errors@[i]) is None
}

/// The input form shown again after a call failed.
pub open spec fn retry_inputs(st: Option<MethodCallState>, node: NodeId, sig: MethodSignature, ed: Vec<String>, error: String) -> bool {
    &&& st matches Some(MethodCallState::Inputs { node: n2, signature: s2, edited, field_errors, call_error })
    &&& n2 == node && s2 == sig && edited == ed && call_error == Some(error)
    &&& field_errors@.len() == sig.inputs@.len()
    &&& forall|i: int| 0 <= i < field_errors@.len() ==> (#[trigger] field_errors@[i]) is None
}

/// How the model answers each report of outside work.
pub open spec fn update_post(a: AppModel, b: AppModel, u: UiUpdate, eff: Seq<Effect>) -> bool {
    let none = Seq::<Effect>::empty();
    match u {
        UiUpdate::ConnectStarted => b == (AppModel { connection: ConnectionState::Connecting, ..a }) && eff == none,
        UiUpdate::ConnectFinished(Ok(())) => {
            // Connected: the URL is recorded, then the remembered selection is
            // restored, or else the root is expanded.
            exists|r: AppModel| {
                &&& #[trigger] crate::model::recorded(AppModel { connection: ConnectionState::Connected, ..a }, r)
                &&& if r.last_selection_paths@.contains_key(r.endpoint_url@)
                    && r.last_selection_paths@[r.endpoint_url@]@.len() > 0 {
                    &&& b == r
                    &&& eff.len() == 1
                    &&& eff[0] matches Effect::RestoreSelection(p) && p@ == r.last_selection_paths@[r.endpoint_url@]@
                } else {
                    expand_post(r, b, r.root_node, eff)
                }
            }
        },
        UiUpdate::ConnectFinished(Err(_)) => b == (AppModel { connection: ConnectionState::Disconnected, ..a }) && eff == none,
        UiUpdate::DisconnectStarted => b == (AppModel { connection: ConnectionState::Disconnecting, ..a }) && eff == none,
        UiUpdate::DisconnectFinished => crate::model::session_reset(AppModel { connection: ConnectionState::Disconnected, ..a }, b)
            && eff == none,
        UiUpdate::ChildrenLoaded { parent, children } => {
            &&& b == (AppModel { tree: b.tree, ..a })
            &&& eff == none
            &&& match children {
                Ok(c) => {
                    &&& b.tree.children@ == a.tree.children@.insert(parent@, c)
                    &&& b.tree.expanded@ == a.tree.expanded@.insert(parent@)
                    &&& b.tree.loading@ == a.tree.loading@.remove(parent@)
                },
                Err(_) => {
                    &&& b.tree.children == a.tree.children
                    &&& b.tree.expanded == a.tree.expanded
                    &&& b.tree.loading@ == a.tree.loading@.remove(parent@)
                },
            }
        },
        UiUpdate::SummaryLoaded { node, summary } => eff == none && if a.selected matches Some(s) && s@ == node@ {
            match summary {
                Ok(sm) => b == (AppModel { node_summary: Some(sm), ..a }),
                Err(_) => b == a,
            }
        } else {
            b == a
        },
        UiUpdate::ReferencesLoaded { node, refs } => eff == none && if a.selected matches Some(s) && s@ == node@ {
            match refs {
                Ok(rs) => b == (AppModel { references_loading: false, references: Some(rs), ..a }),
                Err(_) => b == (AppModel { references_loading: false, ..a }),
            }
        } else {
            b == a
        },
        UiUpdate::EndpointsDiscovered { url, result } => eff == none && if url@ != a.endpoint_url@ {
            b == a
        } else {
            match result {
                Ok(eps) => b == reselect(AppModel { endpoints_loading: false, discovered_endpoints: Some(eps), ..a }),
                Err(_) => {
                    &&& b == (AppModel { endpoints_loading: false, discovered_endpoints: b.discovered_endpoints, ..a })
                    &&& b.discovered_endpoints matches Some(v) && v@.len() == 0
                },
            }
        },
        UiUpdate::CertPathPicked(p) => b == (AppModel { auth_cert_path: p, ..a }) && eff == none,
        UiUpdate::KeyPathPicked(p) => b == (AppModel { auth_key_path: p, ..a }) && eff == none,
        UiUpdate::FilePickerClosed => b == (AppModel { file_picker_open: false, ..a }) && eff == none,
        UiUpdate::PathReady { node, path } => b == a && match path {
            Ok(p) => eff == seq![Effect::SetClipboard(p)],
            Err(_) => eff == none,
        },
        UiUpdate::SelectionPathResolved { url, path } => {
            &&& b == (AppModel { last_selection_paths: b.last_selection_paths, ..a })
            &&& b.last_selection_paths@ == a.last_selection_paths@.insert(url@, path)
            &&& eff == none
        },
        UiUpdate::RestoreSelection(node) => {
            &&& b == (AppModel { selected: Some(node), references_loading: refs_loading_after(a), ..a })
            &&& eff == seq![Effect::ReadNodeSummary(node)] + refs_effects(a.active_tab, node)
        },
        UiUpdate::MethodSignatureLoaded { node, result } => eff == none && if a.method_call matches Some(s) && method_call_node(s)@ == node@ {
            match result {
                Ok(sig) => b == (AppModel { method_call: b.method_call, ..a }) && fresh_inputs(b.method_call, node, sig),
                Err(error) => b == (AppModel { method_call: Some(MethodCallState::Failed { node, error }), ..a }),
            }
        } else {
            b == a
        },
        UiUpdate::MethodCallFinished { node, result } => eff == none && if a.method_call matches Some(s) && method_call_node(s)@ == node@ {
            match a.method_call {
                Some(MethodCallState::Calling { node: n0, signature, edited }) => match result {
                    Ok(outcome) => b == (AppModel {
                        method_call: Some(MethodCallState::Result { node: n0, signature, edited, outcome }),
                        ..a
                    }),
                    Err(error) => b == (AppModel { method_call: b.method_call, ..a })
                        && retry_inputs(b.method_call, n0, signature, edited, error),
                },
                _ => b == (AppModel { method_call: None, ..a }),
            }
        } else {
            b == a
        },
        UiUpdate::SubscribeFinished { node, result } => {
            &&& eff == none
            &&& b == (AppModel { subscribing: b.subscribing, subscriptions: b.subscriptions, ..a })
            &&& b.subscribing@ == a.subscribing@.remove(node@)
            &&& if result is Ok && !has_row(a.subscriptions@, node@) {
                &&& b.subscriptions@.len() == a.subscriptions@.len() + 1
                &&& b.subscriptions@.drop_last() == a.subscriptions@
                &&& pending_row(b.subscriptions@.last(), node, result->Ok_0)
            } else {
                b.subscriptions@ == a.subscriptions@
            }
        },
        UiUpdate::UnsubscribeFinished { node, result } => {
            &&& eff == none
            &&& b == (AppModel { subscribing: b.subscribing, subscriptions: b.subscriptions, ..a })
            &&& b.subscribing@ == a.subscribing@.remove(node@)
            &&& b.subscriptions@ == rows_without(a.subscriptions@, node@)
        },
        UiUpdate::DataChange { node, value, status, timestamp } => {
            &&& eff == none
            &&& b == (AppModel { subscriptions: b.subscriptions, ..a })
            &&& if has_row(a.subscriptions@, node@) {
                exists|i: int| {
                    &&& 0 <= i < a.subscriptions@.len()
                    &&& #[trigger] a.subscriptions@[i].node_id@ == node@
                    &&& forall|j: int| 0 <= j < i ==> a.subscriptions@[j].node_id@ != node@
                    &&& b.subscriptions@ == a.subscriptions@.update(i, SubscriptionRow {
                        value,
                        status,
                        timestamp,
                        ..a.subscriptions@[i]
                    })
                }
            } else {
                b.subscriptions@ == a.subscriptions@
            }
        },
        UiUpdate::Log(line) => {
            &&& eff == none
            &&& b == (AppModel { log: b.log, ..a })
            &&& b.log@ == (if a.log@.len() == crate::model::MAX_LOG_LINES { a.log@.drop_first() } else { a.log@ }).push(line)
        },
    }
}

/// A copy of a chain of node ids.
pub fn clone_path(v: &Vec<NodeId>) -> (r: Vec<NodeId>)
    ensures
        r@ == v@,
{
    let mut r: Vec<NodeId> = Vec::new();
    let mut i: usize = 0;
    while i < v.len()
        invariant
            0 <= i <= v@.len(),
            r@ == v@.take(i as int),
        decreases v.len() - i,
    {
        r.push(v[i].clone());
        i = i + 1;
        assert(r@ =~= v@.take(i as int));
    }
    assert(v@.take(v@.len() as int) =~= v@);
    r
}

/// The first row about `node`, if any.
fn find_row(rows: &Vec<SubscriptionRow>, node: &NodeId) -> (r: Option<usize>)
    ensures
        match r {
            Some(i) => i < rows@.len() && rows@[i as int].node_id@ == node@
                && forall|j: int| 0 <= j < i ==> rows@[j].node_id@ != node@,
            None => !has_row(rows@, node@),
        },
{
    let mut i: usize = 0;
    while i < rows.len()
        invariant
            0 <= i <= rows@.len(),
            forall|j: int| 0 <= j < i ==> rows@[j].node_id@ != node@,
        decreases rows.len() - i,
    {
        if rows[i].node_id.same(node) {
            return Some(i);
        }
        i = i + 1;
    }
    None
}

/// The rows not about `node`.
fn retain_rows(rows: Vec<SubscriptionRow>, node: &NodeId) -> (r: Vec<SubscriptionRow>)
    ensures
        r@ == rows_without(rows@, node@),
{
    let ghost all = rows@;
    let mut rest = rows;
    let mut kept: Vec<SubscriptionRow> = Vec::new();
    while rest.len() > 0
        invariant
            rest@.len() <= all.len(),
            rest@ == all.subrange(all.len() - rest@.len(), all.len() as int),
            kept@ == rows_without(all.take(all.len() - rest@.len()), node@),
        decreases rest.len(),
    {
        let ghost k = all.len() - rest@.len();
        let row = rest.remove(0);
        assert(row == all[k]);
        assert(all.take(k + 1).drop_last() =~= all.take(k));
        assert(all.take(k + 1).last() == all[k]);
        if !row.node_id.same(node) {
            kept.push(row);
        }
    }
    assert(all.take(all.len() as int) =~= all);
    kept
}

fn empty_texts(n: usize) -> (r: Vec<String>)
    ensures
        r@.len() == n,
        forall|i: int| 0 <= i < n ==> (#[trigger] r@[i])@ == Seq::<char>::empty(),
{
    let mut r: Vec<String> = Vec::new();
    let mut i: usize = 0;
    while i < n
        invariant
            0 <= i <= n,
            r@.len() == i,
            forall|j: int| 0 <= j < i ==> (#[trigger] r@[j])@ == Seq::<char>::empty(),
        decreases n - i,
    {
        r.push(String::new());
        i = i + 1;
    }
    r
}

fn no_errors(n: usize) -> (r: Vec<Option<String>>)
    ensures
        r@.len() == n,
        forall|i: int| 0 <= i < n ==> (#[trigger] r@[i]) is None,
{
    let mut r: Vec<Option<String>> = Vec::new();
    let mut i: usize = 0;
    while i < n
        invariant
            0 <= i <= n,
            r@.len() == i,
            forall|j: int| 0 <= j < i ==> (#[trigger] r@[j]) is None,
        decreases n - i,
    {
        r.push(None);
        i = i + 1;
    }
    r
}

impl Engine {
    fn on_connect_started(&mut self) -> (eff: Vec<Effect>)
        requires
            old(self).model.wf(),
        ensures
            final(self).model.wf(),
            update_post(old(self).model, final(self).model, UiUpdate::ConnectStarted, eff@),
    {
        self.model.connection = ConnectionState::Connecting;
        Vec::new()
    }

    fn on_connected(&mut self) -> (eff: Vec<Effect>)
        requires
            old(self).model.wf(),
        ensures
            final(self).model.wf(),
            update_post(old(self).model, final(self).model, UiUpdate::ConnectFinished(Ok(())), eff@),
    {
        let ghost a = self.model;
        self.model.connection = ConnectionState::Connected;
        self.model.record_successful_connection();
        let ghost r = self.model;
        let mut eff: Vec<Effect> = Vec::new();
        let restore = match self.model.last_selection_paths.get(&self.model.endpoint_url) {
            Some(path) => if path.len() > 0 { Some(clone_path(path)) } else { None },
            None => None,
        };
        match restore {
            Some(p) => {
                eff.push(Effect::RestoreSelection(p));
            },
            None => {
                let root = self.model.root_node.clone();
                eff = self.ensure_expanded(root);
            },
        }
        assert(crate::model::recorded(AppModel { connection: ConnectionState::Connected, ..a }, r));
        eff
    }

    fn on_connect_failed(&mut self, e: String) -> (eff: Vec<Effect>)
        requires
            old(self).model.wf(),
        ensures
            final(self).model.wf(),
            update_post(old(self).model, final(self).model, UiUpdate::ConnectFinished(Err(e)), eff@),
    {
        self.model.connection = ConnectionState::Disconnected;
        Vec::new()
    }

    fn on_disconnect_started(&mut self) -> (eff: Vec<Effect>)
        requires
            old(self).model.wf(),
        ensures
            final(self).model.wf(),
            update_post(old(self).model, final(self).model, UiUpdate::DisconnectStarted, eff@),
    {
        self.model.connection = ConnectionState::Disconnecting;
        Vec::new()
    }

    fn on_disconnected(&mut self) -> (eff: Vec<Effect>)
        requires
            old(self).model.wf(),
        ensures
            final(self).model.wf(),
            update_post(old(self).model, final(self).model, UiUpdate::DisconnectFinished, eff@),
    {
        self.model.connection = ConnectionState::Disconnected;
        self.model.reset_session_state();
        Vec::new()
    }

    fn on_children_loaded(&mut self, parent: NodeId, children: Result<Vec<TreeChild>, String>) -> (eff: Vec<Effect>)
        requires
            old(self).model.wf(),
        ensures
            final(self).model.wf(),
            update_post(old(self).model, final(self).model, UiUpdate::ChildrenLoaded { parent, children }, eff@),
    {
        self.model.tree.loading.remove(&parent);
        match children {
            Ok(c) => {
                self.model.tree.children.insert(parent.clone(), c);
                self.model.tree.expanded.insert(parent);
            },
            Err(_) => {},
        }
        Vec::new()
    }

    fn on_summary_loaded(&mut self, node: NodeId, summary: Result<NodeSummary, String>) -> (eff: Vec<Effect>)
        requires
            old(self).model.wf(),
        ensures
            final(self).model.wf(),
            update_post(old(self).model, final(self).model, UiUpdate::SummaryLoaded { node, summary }, eff@),
    {
        let is_selected = match &self.model.selected {
            Some(s) => s.same(&node),
            None => false,
        };
        if is_selected {
            match summary {
                Ok(sm) => {
                    self.model.node_summary = Some(sm);
                },
                Err(_) => {},
            }
        }
        Vec::new()
    }

    fn on_references_loaded(&mut self, node: NodeId, refs: Result<Vec<ReferenceRow>, String>) -> (eff: Vec<Effect>)
        requires
            old(self).model.wf(),
        ensures
            final(self).model.wf(),
            update_post(old(self).model, final(self).model, UiUpdate::ReferencesLoaded { node, refs }, eff@),
    {
        let is_selected = match &self.model.selected {
            Some(s) => s.same(&node),
            None => false,
        };
        if is_selected {
            self.model.references_loading = false;
            match refs {
                Ok(rs) => {
                    self.model.references = Some(rs);
                },
                Err(_) => {},
            }
        }
        Vec::new()
    }

    fn on_endpoints_discovered(&mut self, url: String, result: Result<Vec<EndpointInfo>, String>) -> (eff: Vec<Effect>)
        requires
            old(self).model.wf(),
        ensures
            final(self).model.wf(),
            update_post(old(self).model, final(self).model, UiUpdate::EndpointsDiscovered { url, result }, eff@),
    {
        if url != self.model.endpoint_url {
            return Vec::new();
        }
        self.model.endpoints_loading = false;
        match result {
            Ok(eps) => {
                self.model.discovered_endpoints = Some(eps);
                self.select_first_matching_endpoint();
            },
            Err(_) => {
                self.model.discovered_endpoints = Some(Vec::new());
            },
        }
        Vec::new()
    }

    fn on_cert_path_picked(&mut self, p: String) -> (eff: Vec<Effect>)
        requires
            old(self).model.wf(),
        ensures
            final(self).model.wf(),
            update_post(old(self).model, final(self).model, UiUpdate::CertPathPicked(p), eff@),
    {
        self.model.auth_cert_path = p;
        Vec::new()
    }

    fn on_key_path_picked(&mut self, p: String) -> (eff: Vec<Effect>)
        requires
            old(self).model.wf(),
        ensures
            final(self).model.wf(),
            update_post(old(self).model, final(self).model, UiUpdate::KeyPathPicked(p), eff@),
    {
        self.model.auth_key_path = p;
        Vec::new()
    }

    fn on_file_picker_closed(&mut self) -> (eff: Vec<Effect>)
        requires
            old(self).model.wf(),
        ensures
            final(self).model.wf(),
            update_post(old(self).model, final(self).model, UiUpdate::FilePickerClosed, eff@),
    {
        self.model.file_picker_open = false;
        Vec::new()
    }

    fn on_path_ready(&mut self, node: NodeId, path: Result<String, String>) -> (eff: Vec<Effect>)
        requires
            old(self).model.wf(),
        ensures
            final(self).model.wf(),
            update_post(old(self).model, final(self).model, UiUpdate::PathReady { node, path }, eff@),
    {
        let mut eff: Vec<Effect> = Vec::new();
        match path {
            Ok(p) => {
                eff.push(Effect::SetClipboard(p));
            },
            Err(_) => {},
        }
        eff
    }

    fn on_selection_path_resolved(&mut self, url: String, path: Vec<NodeId>) -> (eff: Vec<Effect>)
        requires
            old(self).model.wf(),
        ensures
            final(self).model.wf(),
            update_post(old(self).model, final(self).model, UiUpdate::SelectionPathResolved { url, path }, eff@),
    {
        self.model.last_selection_paths.insert(url, path);
        Vec::new()
    }

    fn on_restore_selection(&mut self, node: NodeId) -> (eff: Vec<Effect>)
        requires
            old(self).model.wf(),
        ensures
            final(self).model.wf(),
            update_post(old(self).model, final(self).model, UiUpdate::RestoreSelection(node), eff@),
    {
        let ghost a = self.model;
        let mut eff: Vec<Effect> = Vec::new();
        self.model.selected = Some(node.clone());
        eff.push(Effect::ReadNodeSummary(node.clone()));
        if self.model.active_tab == DetailTab::References {
            self.model.references_loading = true;
            eff.push(Effect::BrowseReferences(node));
        }
        assert(eff@ =~= seq![Effect::ReadNodeSummary(node)] + refs_effects(a.active_tab, node));
        eff
    }

    fn on_method_signature_loaded(&mut self, node: NodeId, result: Result<MethodSignature, String>) -> (eff: Vec<Effect>)
        requires
            old(self).model.wf(),
        ensures
            final(self).model.wf(),
            update_post(old(self).model, final(self).model, UiUpdate::MethodSignatureLoaded { node, result }, eff@),
    {
        if !self.method_call_targets(&node) {
            return Vec::new();
        }
        match result {
            Ok(signature) => {
                let n = signature.inputs.len();
                let edited = empty_texts(n);
                let field_errors = no_errors(n);
                self.model.method_call = Some(MethodCallState::Inputs {
                    node,
                    signature,
                    edited,
                    field_errors,
                    call_error: None,
                });
            },
            Err(error) => {
                self.model.method_call = Some(MethodCallState::Failed { node, error });
            },
        }
        Vec::new()
    }

    fn on_method_call_finished(&mut self, node: NodeId, result: Result<MethodCallOutcome, String>) -> (eff: Vec<Effect>)
        requires
            old(self).model.wf(),
        ensures
            final(self).model.wf(),
            update_post(old(self).model, final(self).model, UiUpdate::MethodCallFinished { node, result }, eff@),
    {
        if !self.method_call_targets(&node) {
            return Vec::new();
        }
        let taken = self.model.method_call.take();
        match taken {
            Some(MethodCallState::Calling { node: n0, signature, edited }) => {
                match result {
                    Ok(outcome) => {
                        self.model.method_call = Some(MethodCallState::Result {
                            node: n0,
                            signature,
                            edited,
                            outcome,
                        });
                    },
                    Err(error) => {
                        let n = signature.inputs.len();
                        let field_errors = no_errors(n);
                        self.model.method_call = Some(MethodCallState::Inputs {
                            node: n0,
                            signature,
                            edited,
                            field_errors,
                            call_error: Some(error),
                        });
                    },
                }
            },
            _ => {},
        }
        Vec::new()
    }

    fn on_subscribe_finished(&mut self, node: NodeId, result: Result<String, String>) -> (eff: Vec<Effect>)
        requires
            old(self).model.wf(),
        ensures
            final(self).model.wf(),
            update_post(old(self).model, final(self).model, UiUpdate::SubscribeFinished { node, result }, eff@),
    {
        self.model.subscribing.remove(&node);
        match result {
            Ok(display_name) => {
                if find_row(&self.model.subscriptions, &node).is_none() {
                    let ghost before = self.model.subscriptions@;
                    self.model.subscriptions.push(SubscriptionRow {
                        node_id: node,
                        display_name,
                        value: "<pending>".to_owned(),
                        status: String::new(),
                        timestamp: None,
                    });
                    assert(self.model.subscriptions@.drop_last() =~= before);
                }
            },
            Err(_) => {},
        }
        Vec::new()
    }

    fn on_unsubscribe_finished(&mut self, node: NodeId, result: Result<(), String>) -> (eff: Vec<Effect>)
        requires
            old(self).model.wf(),
        ensures
            final(self).model.wf(),
            update_post(old(self).model, final(self).model, UiUpdate::UnsubscribeFinished { node, result }, eff@),
    {
        self.model.subscribing.remove(&node);
        let mut rows: Vec<SubscriptionRow> = Vec::new();
        std::mem::swap(&mut rows, &mut self.model.subscriptions);
        self.model.subscriptions = retain_rows(rows, &node);
        Vec::new()
    }

    fn on_data_change(&mut self, node: NodeId, value: String, status: String, timestamp: Option<String>) -> (eff: Vec<Effect>)
        requires
            old(self).model.wf(),
        ensures
            final(self).model.wf(),
            update_post(old(self).model, final(self).model, UiUpdate::DataChange { node, value, status, timestamp }, eff@),
    {
        match find_row(&self.model.subscriptions, &node) {
            Some(i) => {
                let row = SubscriptionRow {
                    node_id: self.model.subscriptions[i].node_id.clone(),
                    display_name: self.model.subscriptions[i].display_name.clone(),
                    value,
                    status,
                    timestamp,
                };
                self.model.subscriptions.set(i, row);
            },
            None => {},
        }
        Vec::new()
    }

    fn on_log(&mut self, line: LogLine) -> (eff: Vec<Effect>)
        requires
            old(self).model.wf(),
        ensures
            final(self).model.wf(),
            update_post(old(self).model, final(self).model, UiUpdate::Log(line), eff@),
    {
        self.model.push_log(line);
        Vec::new()
    }

    /// Applies a report of outside work to the model; returns the outside
    /// work it asks for next.
    pub fn apply_update(&mut self, update: UiUpdate) -> (eff: Vec<Effect>)
        requires
            old(self).model.wf(),
        ensures
            final(self).model.wf(),
            update_post(old(self).model, final(self).model, update, eff@),
    {
        match update {
            UiUpdate::ConnectStarted => self.on_connect_started(),
            UiUpdate::ConnectFinished(Ok(())) => self.on_connected(),
            UiUpdate::ConnectFinished(Err(e)) => self.on_connect_failed(e),
            UiUpdate::DisconnectStarted => self.on_disconnect_started(),
            UiUpdate::DisconnectFinished => self.on_disconnected(),
            UiUpdate::ChildrenLoaded { parent, children } => self.on_children_loaded(parent, children),
            UiUpdate::SummaryLoaded { node, summary } => self.on_summary_loaded(node, summary),
            UiUpdate::ReferencesLoaded { node, refs } => self.on_references_loaded(node, refs),
            UiUpdate::EndpointsDiscovered { url, result } => self.on_endpoints_discovered(url, result),
            UiUpdate::CertPathPicked(p) => self.on_cert_path_picked(p),
            UiUpdate::KeyPathPicked(p) => self.on_key_path_picked(p),
            UiUpdate::FilePickerClosed => self.on_file_picker_closed(),
            UiUpdate::PathReady { node, path } => self.on_path_ready(node, path),
            UiUpdate::SelectionPathResolved { url, path } => self.on_selection_path_resolved(url, path),
            UiUpdate::RestoreSelection(node) => self.on_restore_selection(node),
            UiUpdate::MethodSignatureLoaded { node, result } => self.on_method_signature_loaded(node, result),
            UiUpdate::MethodCallFinished { node, result } => self.on_method_call_finished(node, result),
            UiUpdate::SubscribeFinished { node, result } => self.on_subscribe_finished(node, result),
            UiUpdate::UnsubscribeFinished { node, result } => self.on_unsubscribe_finished(node, result),
            UiUpdate::DataChange { node, value, status, timestamp } => self.on_data_change(node, value, status, timestamp),
            UiUpdate::Log(line) => self.on_log(line),
        }
    }
}

/// The text typed for input `i` (empty when none was typed).
pub open spec fn arg_text(edited: Seq<String>, i: int) -> Seq<char> {
    if 0 <= i < edited.len() { edited[i]@ } else { Seq::empty() }
}

/// Reading input `i` of a method against its declared type.
pub open spec fn arg_result(sig: MethodSignature, edited: Seq<String>, i: int) -> Result<VariantView, Seq<char>> {
    variant_parse(arg_text(edited, i), sig.inputs@[i].data_type@, sig.inputs@[i].value_rank)
}

/// Every input of the method reads.
pub open spec fn all_args_ok(sig: MethodSignature, edited: Seq<String>) -> bool {
    forall|i: int| 0 <= i < sig.inputs@.len() ==> (#[trigger] arg_result(sig, edited, i)) is Ok
}

/// The values read from the inputs.
pub open spec fn arg_values(sig: MethodSignature, edited: Seq<String>) -> Seq<VariantView> {
    Seq::new(sig.inputs@.len(), |i: int| arg_result(sig, edited, i)->Ok_0)
}

/// The error shown under each input: none for one that reads.
pub open spec fn arg_errors(sig: MethodSignature, edited: Seq<String>) -> Seq<Option<Seq<char>>> {
    Seq::new(sig.inputs@.len(), |i: int| match arg_result(sig, edited, i) {
        Ok(_) => None,
        Err(e) => Some(e),
    })
}

pub open spec fn opt_views(v: Seq<Option<String>>) -> Seq<Option<Seq<char>>> {
    v.map_values(|o: Option<String>| match o {
        Some(s) => Some(s@),
        None => None,
    })
}

pub open spec fn variant_views(v: Seq<VariantInput>) -> Seq<VariantView> {
    v.map_values(|x: VariantInput| x@)
}

/// Confirming a call from the form of `node`: when every input reads, the
/// call is made with the values read; otherwise the form shows the errors.
pub open spec fn confirm_from(a: AppModel, b: AppModel, eff: Seq<Effect>, node: NodeId, sig: MethodSignature, ed: Vec<String>) -> bool {
    if all_args_ok(sig, ed@) {
        &&& b == (AppModel { method_call: Some(MethodCallState::Calling { node, signature: sig, edited: ed }), ..a })
        &&& eff.len() == 1
        &&& eff[0] matches Effect::CallMethod { parent, method, inputs, node: n2 }
            && parent == sig.parent_object && method == sig.method_node && n2 == node
            && variant_views(inputs@) == arg_values(sig, ed@)
    } else {
        &&& b == (AppModel { method_call: b.method_call, ..a })
        &&& b.method_call matches Some(MethodCallState::Inputs { node: n2, signature: s2, edited: e2, field_errors, call_error })
            && n2 == node && s2 == sig && e2 == ed && call_error is None
            && opt_views(field_errors@) == arg_errors(sig, ed@)
        &&& eff == Seq::<Effect>::empty()
    }
}

pub open spec fn confirm_post(a: AppModel, b: AppModel, eff: Seq<Effect>) -> bool {
    match a.method_call {
        Some(MethodCallState::Inputs { node, signature, edited, .. }) => confirm_from(a, b, eff, node, signature, edited),
        Some(MethodCallState::Result { node, signature, edited, .. }) => confirm_from(a, b, eff, node, signature, edited),
        _ => b == a && eff == Seq::<Effect>::empty(),
    }
}

/// Editing input `index` of the method form.
pub open spec fn arg_edit_post(a: AppModel, b: AppModel, index: usize, value: String) -> bool {
    match a.method_call {
        Some(MethodCallState::Inputs { node, signature, edited, field_errors, call_error }) => if index < edited@.len() {
            &&& b == (AppModel { method_call: b.method_call, ..a })
            &&& b.method_call matches Some(MethodCallState::Inputs { node: n2, signature: s2, edited: e2, field_errors: f2, call_error: c2 })
                && n2 == node && s2 == signature && c2 is None
                && e2@ == edited@.update(index as int, value)
                && f2@ == if index < field_errors@.len() { field_errors@.update(index as int, None) } else { field_errors@ }
        } else {
            b == a
        },
        Some(MethodCallState::Result { node, signature, edited, outcome }) => if index < edited@.len() {
            &&& b == (AppModel { method_call: b.method_call, ..a })
            &&& b.method_call matches Some(MethodCallState::Result { node: n2, signature: s2, edited: e2, outcome: o2 })
                && n2 == node && s2 == signature && o2 == outcome
                && e2@ == edited@.update(index as int, value)
        } else {
            b == a
        },
        _ => b == a,
    }
}

/// The first attribute called `Value`, if any.
pub open spec fn value_attribute(attrs: Seq<NodeAttribute>) -> Option<NodeAttribute>
    decreases attrs.len(),
{
    if attrs.len() == 0 {
        None
    } else if attrs[0].name@ == "Value"@ {
        Some(attrs[0])
    } else {
        value_attribute(attrs.drop_first())
    }
}

/// The position of the first attribute called `Value`.
fn find_value_attribute(attrs: &Vec<NodeAttribute>) -> (r: Option<usize>)
    ensures
        match r {
            Some(i) => i < attrs@.len() && value_attribute(attrs@) == Some(attrs@[i as int]),
            None => value_attribute(attrs@) is None,
        },
{
    let mut i: usize = 0;
    assert(attrs@.skip(0) =~= attrs@);
    while i < attrs.len()
        invariant
            0 <= i <= attrs@.len(),
            value_attribute(attrs@) == value_attribute(attrs@.skip(i as int)),
        decreases attrs.len() - i,
    {
        proof {
            reveal_strlit("Value");
        }
        assert(attrs@.skip(i as int)[0] == attrs@[i as int]);
        assert(attrs@.skip(i as int).drop_first() =~= attrs@.skip(i + 1));
        if attrs[i].name == "Value".to_owned() {
            return Some(i);
        }
        i = i + 1;
    }
    None
}

/// How the model answers each user action.
pub open spec fn dispatch_post(a: AppModel, b: AppModel, act: UiAction, eff: Seq<Effect>) -> bool {
    let none = Seq::<Effect>::empty();
    match act {
        UiAction::EndpointEdited(s) => eff == none && if s@ != a.endpoint_url@ {
            crate::model::prefs_applied(AppModel {
                endpoint_url: s,
                discovered_endpoints: None,
                selected_endpoint: None,
                endpoints_loading: false,
                ..a
            }, b)
        } else {
            b == a
        },
        UiAction::TabSelected(t) => {
            let a1 = AppModel { active_tab: t, ..a };
            if t == DetailTab::References && a.selected is Some && a.references is None && !a.references_loading {
                b == (AppModel { references_loading: true, ..a1 }) && eff == seq![Effect::BrowseReferences(a.selected->Some_0)]
            } else {
                b == a1 && eff == none
            }
        },
        UiAction::ConnectClicked => if a.selected_endpoint is None {
            picker_post(a, b, eff)
        } else {
            b == a && eff == seq![connect_effect(a)]
        },
        UiAction::DisconnectClicked => b == a && eff == seq![Effect::Disconnect],
        UiAction::NodeToggleExpand(n) => toggle_post(a, b, n, eff),
        UiAction::NodeSelected(n) => select_post(a, b, n, eff),
        UiAction::RefreshClicked => match a.selected {
            Some(n) => b == (AppModel { references_loading: refs_loading_after(a), ..a })
                && eff == seq![Effect::ReadNodeSummary(n)] + refs_effects(a.active_tab, n),
            None => b == a && eff == none,
        },
        UiAction::OpenEndpointPicker => picker_post(a, b, eff),
        UiAction::CloseEndpointPicker => b == (AppModel { endpoints_dialog_open: false, ..a }) && eff == none,
        UiAction::ForceRefreshEndpoints => if !a.endpoints_loading {
            discover_post(a, b, eff)
        } else {
            b == a && eff == none
        },
        UiAction::SelectEndpoint(ep) => b == (AppModel { selected_endpoint: Some(ep), ..a }) && eff == none,
        UiAction::ClearSelectedEndpoint => b == (AppModel { selected_endpoint: None, ..a }) && eff == none,
        UiAction::SetAuthMode(m) => b == (AppModel { auth_mode: m, ..a }) && eff == none,
        UiAction::SetEndpointModeFilter(m) => b == reselect(AppModel { endpoint_mode_filter: m, ..a }) && eff == none,
        UiAction::AuthUsernameEdited(s) => b == (AppModel { auth_username: s, ..a }) && eff == none,
        UiAction::AuthPasswordEdited(s) => b == (AppModel { auth_password: s, ..a }) && eff == none,
        UiAction::AuthCertPathEdited(s) => b == (AppModel { auth_cert_path: s, ..a }) && eff == none,
        UiAction::AuthKeyPathEdited(s) => b == (AppModel { auth_key_path: s, ..a }) && eff == none,
        UiAction::PickAuthCertPath => if !a.file_picker_open {
            &&& b == (AppModel { file_picker_open: true, ..a })
            &&& eff.len() == 1
            &&& eff[0] matches Effect::PickFile { target, title, default_dir }
                && target == FilePickTarget::CertPath && title@ == "Pick client certificate"@
                && default_dir == a.auth_cert_path
        } else {
            b == a && eff == none
        },
        UiAction::PickAuthKeyPath => if !a.file_picker_open {
            &&& b == (AppModel { file_picker_open: true, ..a })
            &&& eff.len() == 1
            &&& eff[0] matches Effect::PickFile { target, title, default_dir }
                && target == FilePickTarget::KeyPath && title@ == "Pick private key"@
                && default_dir == a.auth_key_path
        } else {
            b == a && eff == none
        },
        UiAction::ConfirmConnect => if a.selected_endpoint is Some {
            b == (AppModel { endpoints_dialog_open: false, ..a }) && eff == seq![connect_effect(a)]
        } else {
            b == a && eff == none
        },
        UiAction::CopyPath(n) => b == a && eff == seq![Effect::BrowsePath(n)],
        UiAction::CopyNodeId(n) => b == a && eff.len() == 1 && (eff[0] matches Effect::SetClipboard(t) && t@ == node_id_text(n@)),
        UiAction::CopyNodeValue => b == a && match a.node_summary {
            Some(sm) => match value_attribute(sm.attributes@) {
                Some(attr) => eff.len() == 1 && (eff[0] matches Effect::SetClipboard(t) && t@ == clip_text(attr.value, Seq::empty())),
                None => eff == none,
            },
            None => eff == none,
        },
        UiAction::ClearSelection => b == (AppModel {
            selected: None,
            node_summary: None,
            references: None,
            references_loading: false,
            ..a
        }) && eff == none,
        UiAction::OpenMethodCall(n) => b == (AppModel { method_call: Some(MethodCallState::Loading { node: n }), ..a })
            && eff == seq![Effect::ReadMethodSignature(n)],
        UiAction::CloseMethodCall => b == (AppModel { method_call: None, ..a }) && eff == none,
        UiAction::MethodArgEdited { index, value } => arg_edit_post(a, b, index, value) && eff == none,
        UiAction::CallMethodConfirmed => confirm_post(a, b, eff),
        UiAction::Subscribe(n) => {
            &&& b == (AppModel { subscribing: b.subscribing, ..a })
            &&& b.subscribing@ == a.subscribing@.insert(n@)
            &&& eff == if a.subscribing@.contains(n@) { none } else { seq![Effect::Subscribe(n)] }
        },
        UiAction::Unsubscribe(n) => {
            &&& b == (AppModel { subscribing: b.subscribing, ..a })
            &&& b.subscribing@ == a.subscribing@.insert(n@)
            &&& eff == if a.subscribing@.contains(n@) { none } else { seq![Effect::Unsubscribe(n)] }
        },
    }
}

impl Engine {
    fn act_endpoint_edited(&mut self, s: String) -> (eff: Vec<Effect>)
        requires
            old(self).model.wf(),
        ensures
            final(self).model.wf(),
            dispatch_post(old(self).model, final(self).model, UiAction::EndpointEdited(s), eff@),
    {
        if s != self.model.endpoint_url {
            self.model.endpoint_url = s;
            self.model.discovered_endpoints = None;
            self.model.selected_endpoint = None;
            self.model.endpoints_loading = false;
            self.model.apply_saved_connection_prefs();
        }
        Vec::new()
    }

    fn act_tab_selected(&mut self, t: DetailTab) -> (eff: Vec<Effect>)
        requires
            old(self).model.wf(),
        ensures
            final(self).model.wf(),
            dispatch_post(old(self).model, final(self).model, UiAction::TabSelected(t), eff@),
    {
        self.model.active_tab = t;
        let mut eff: Vec<Effect> = Vec::new();
        if t == DetailTab::References && self.model.references.is_none() && !self.model.references_loading {
            match &self.model.selected {
                Some(node) => {
                    let node = node.clone();
                    self.model.references_loading = true;
                    eff.push(Effect::BrowseReferences(node));
                },
                None => {},
            }
        }
        eff
    }

    fn act_connect_clicked(&mut self) -> (eff: Vec<Effect>)
        requires
            old(self).model.wf(),
        ensures
            final(self).model.wf(),
            dispatch_post(old(self).model, final(self).model, UiAction::ConnectClicked, eff@),
    {
        if self.model.selected_endpoint.is_none() {
            self.open_endpoint_picker()
        } else {
            let mut eff: Vec<Effect> = Vec::new();
            eff.push(self.connect_request());
            eff
        }
    }

    fn act_refresh_clicked(&mut self) -> (eff: Vec<Effect>)
        requires
            old(self).model.wf(),
        ensures
            final(self).model.wf(),
            dispatch_post(old(self).model, final(self).model, UiAction::RefreshClicked, eff@),
    {
        let mut eff: Vec<Effect> = Vec::new();
        match &self.model.selected {
            Some(node) => {
                let node = node.clone();
                eff.push(Effect::ReadNodeSummary(node.clone()));
                if self.model.active_tab == DetailTab::References {
                    self.model.references_loading = true;
                    eff.push(Effect::BrowseReferences(node));
                }
                assert(eff@ =~= seq![Effect::ReadNodeSummary(node)] + refs_effects(old(self).model.active_tab, node));
            },
            None => {},
        }
        eff
    }

    fn act_force_refresh(&mut self) -> (eff: Vec<Effect>)
        requires
            old(self).model.wf(),
        ensures
            final(self).model.wf(),
            dispatch_post(old(self).model, final(self).model, UiAction::ForceRefreshEndpoints, eff@),
    {
        if !self.model.endpoints_loading {
            self.spawn_discover_endpoints()
        } else {
            Vec::new()
        }
    }

    fn act_pick_file(&mut self, target: FilePickTarget) -> (eff: Vec<Effect>)
        requires
            old(self).model.wf(),
        ensures
            final(self).model.wf(),
            dispatch_post(old(self).model, final(self).model, if target == FilePickTarget::CertPath { UiAction::PickAuthCertPath } else { UiAction::PickAuthKeyPath }, eff@),
    {
        let mut eff: Vec<Effect> = Vec::new();
        if !self.model.file_picker_open {
            self.model.file_picker_open = true;
            let (title, default_dir) = if target == FilePickTarget::CertPath {
                ("Pick client certificate".to_owned(), self.model.auth_cert_path.clone())
            } else {
                ("Pick private key".to_owned(), self.model.auth_key_path.clone())
            };
            eff.push(Effect::PickFile { target, title, default_dir });
        }
        eff
    }

    fn act_confirm_connect(&mut self) -> (eff: Vec<Effect>)
        requires
            old(self).model.wf(),
        ensures
            final(self).model.wf(),
            dispatch_post(old(self).model, final(self).model, UiAction::ConfirmConnect, eff@),
    {
        let mut eff: Vec<Effect> = Vec::new();
        if self.model.selected_endpoint.is_some() {
            let request = self.connect_request();
            self.model.endpoints_dialog_open = false;
            eff.push(request);
        }
        eff
    }

    fn act_copy_node_value(&mut self) -> (eff: Vec<Effect>)
        requires
            old(self).model.wf(),
        ensures
            final(self).model.wf(),
            dispatch_post(old(self).model, final(self).model, UiAction::CopyNodeValue, eff@),
    {
        let mut eff: Vec<Effect> = Vec::new();
        match &self.model.node_summary {
            Some(summary) => match find_value_attribute(&summary.attributes) {
                Some(i) => {
                    eff.push(Effect::SetClipboard(render_value_for_clipboard(&summary.attributes[i].value)));
                },
                None => {},
            },
            None => {},
        }
        eff
    }

    fn act_arg_edited(&mut self, index: usize, value: String) -> (eff: Vec<Effect>)
        requires
            old(self).model.wf(),
        ensures
            final(self).model.wf(),
            dispatch_post(old(self).model, final(self).model, UiAction::MethodArgEdited { index, value }, eff@),
    {
        let taken = self.model.method_call.take();
        match taken {
            Some(MethodCallState::Inputs { node, signature, mut edited, mut field_errors, call_error }) => {
                if index < edited.len() {
                    edited.set(index, value);
                    if index < field_errors.len() {
                        field_errors.set(index, None);
                    }
                    self.model.method_call = Some(MethodCallState::Inputs {
                        node,
                        signature,
                        edited,
                        field_errors,
                        call_error: None,
                    });
                } else {
                    self.model.method_call = Some(MethodCallState::Inputs { node, signature, edited, field_errors, call_error });
                }
            },
            Some(MethodCallState::Result { node, signature, mut edited, outcome }) => {
                if index < edited.len() {
                    edited.set(index, value);
                }
                self.model.method_call = Some(MethodCallState::Result { node, signature, edited, outcome });
            },
            other => {
                self.model.method_call = other;
            },
        }
        Vec::new()
    }

    fn act_subscribe(&mut self, node: NodeId, stop: bool) -> (eff: Vec<Effect>)
        requires
            old(self).model.wf(),
        ensures
            final(self).model.wf(),
            dispatch_post(old(self).model, final(self).model, if stop { UiAction::Unsubscribe(node) } else { UiAction::Subscribe(node) }, eff@),
    {
        let mut eff: Vec<Effect> = Vec::new();
        if self.model.subscribing.insert(node.clone()) {
            if stop {
                eff.push(Effect::Unsubscribe(node));
            } else {
                eff.push(Effect::Subscribe(node));
            }
        }
        eff
    }

    /// Checks the typed inputs of the method form; when all of them read,
    /// asks for the call, otherwise shows the errors.
    fn confirm_method_call(&mut self) -> (eff: Vec<Effect>)
        requires
            old(self).model.wf(),
        ensures
            final(self).model.wf(),
            confirm_post(old(self).model, final(self).model, eff@),
    {
        let taken = self.model.method_call.take();
        let (node, signature, edited) = match taken {
            Some(MethodCallState::Inputs { node, signature, edited, .. }) => (node, signature, edited),
            Some(MethodCallState::Result { node, signature, edited, .. }) => (node, signature, edited),
            other => {
                self.model.method_call = other;
                return Vec::new();
            },
        };
        let n = signature.inputs.len();
        let mut variants: Vec<VariantInput> = Vec::new();
        let mut field_errors: Vec<Option<String>> = Vec::new();
        let mut any_error = false;
        let mut i: usize = 0;
        proof {
            reveal_strlit("");
        }
        while i < n
            invariant
                0 <= i <= n == signature.inputs@.len(),
                opt_views(field_errors@) == arg_errors(signature, edited@).take(i as int),
                any_error <==> exists|j: int| 0 <= j < i && (#[trigger] arg_result(signature, edited@, j)) is Err,
                !any_error ==> variant_views(variants@) == arg_values(signature, edited@).take(i as int),
            decreases n - i,
        {
            proof {
                reveal_strlit("");
            }
            let text: &str = if i < edited.len() { edited[i].as_str() } else { "" };
            assert(text@ == arg_text(edited@, i as int));
            let arg = &signature.inputs[i];
            let ghost fe = opt_views(field_errors@);
            let ghost vs = variant_views(variants@);
            match parse_variant(text, &arg.data_type, arg.value_rank) {
                Ok(v) => {
                    let ghost vv = v@;
                    variants.push(v);
                    field_errors.push(None);
                    assert(opt_views(field_errors@) =~= fe.push(None));
                    assert(variant_views(variants@) =~= vs.push(vv));
                },
                Err(e) => {
                    let ghost ev = e@;
                    field_errors.push(Some(e));
                    any_error = true;
                    assert(opt_views(field_errors@) =~= fe.push(Some(ev)));
                },
            }
            assert(arg_errors(signature, edited@).take(i + 1) =~= arg_errors(signature, edited@).take(i as int).push(arg_errors(signature, edited@)[i as int]));
            assert(arg_values(signature, edited@).take(i + 1) =~= arg_values(signature, edited@).take(i as int).push(arg_values(signature, edited@)[i as int]));
            i = i + 1;
        }
        assert(arg_errors(signature, edited@).take(n as int) =~= arg_errors(signature, edited@));
        assert(arg_values(signature, edited@).take(n as int) =~= arg_values(signature, edited@));
        if any_error {
            self.model.method_call = Some(MethodCallState::Inputs {
                node,
                signature,
                edited,
                field_errors,
                call_error: None,
            });
            return Vec::new();
        }
        let parent = signature.parent_object.clone();
        let method = signature.method_node.clone();
        let call_node = node.clone();
        self.model.method_call = Some(MethodCallState::Calling { node, signature, edited });
        let mut eff: Vec<Effect> = Vec::new();
        eff.push(Effect::CallMethod { parent, method, inputs: variants, node: call_node });
        eff
    }

    /// Applies a user action to the model; returns the outside work it asks for.
    pub fn dispatch(&mut self, action: UiAction) -> (eff: Vec<Effect>)
        requires
            old(self).model.wf(),
        ensures
            final(self).model.wf(),
            dispatch_post(old(self).model, final(self).model, action, eff@),
    {
        match action {
            UiAction::EndpointEdited(s) => self.act_endpoint_edited(s),
            UiAction::TabSelected(t) => self.act_tab_selected(t),
            UiAction::ConnectClicked => self.act_connect_clicked(),
            UiAction::DisconnectClicked => {
                let mut eff: Vec<Effect> = Vec::new();
                eff.push(Effect::Disconnect);
                eff
            },
            UiAction::NodeToggleExpand(n) => self.toggle_expand(n),
            UiAction::NodeSelected(n) => self.select_node(n),
            UiAction::ClearSelection => {
                self.model.selected = None;
                self.model.node_summary = None;
                self.model.references = None;
                self.model.references_loading = false;
                Vec::new()
            },
            UiAction::RefreshClicked => self.act_refresh_clicked(),
            UiAction::OpenEndpointPicker => self.open_endpoint_picker(),
            UiAction::CloseEndpointPicker => {
                self.model.endpoints_dialog_open = false;
                Vec::new()
            },
            UiAction::ForceRefreshEndpoints => self.act_force_refresh(),
            UiAction::SelectEndpoint(ep) => {
                self.model.selected_endpoint = Some(ep);
                Vec::new()
            },
            UiAction::ClearSelectedEndpoint => {
                self.model.selected_endpoint = None;
                Vec::new()
            },
            UiAction::SetAuthMode(mode) => {
                self.model.auth_mode = mode;
                Vec::new()
            },
            UiAction::SetEndpointModeFilter(mode) => {
                self.model.endpoint_mode_filter = mode;
                self.select_first_matching_endpoint();
                Vec::new()
            },
            UiAction::AuthUsernameEdited(s) => {
                self.model.auth_username = s;
                Vec::new()
            },
            UiAction::AuthPasswordEdited(s) => {
                self.model.auth_password = s;
                Vec::new()
            },
            UiAction::AuthCertPathEdited(s) => {
                self.model.auth_cert_path = s;
                Vec::new()
            },
            UiAction::AuthKeyPathEdited(s) => {
                self.model.auth_key_path = s;
                Vec::new()
            },
            UiAction::PickAuthCertPath => self.act_pick_file(FilePickTarget::CertPath),
            UiAction::PickAuthKeyPath => self.act_pick_file(FilePickTarget::KeyPath),
            UiAction::ConfirmConnect => self.act_confirm_connect(),
            UiAction::CopyPath(node) => {
                let mut eff: Vec<Effect> = Vec::new();
                eff.push(Effect::BrowsePath(node));
                eff
            },
            UiAction::CopyNodeId(node) => {
                let mut eff: Vec<Effect> = Vec::new();
                eff.push(Effect::SetClipboard(node.to_text()));
                eff
            },
            UiAction::CopyNodeValue => self.act_copy_node_value(),
            UiAction::OpenMethodCall(node) => {
                self.model.method_call = Some(MethodCallState::Loading { node: node.clone() });
                let mut eff: Vec<Effect> = Vec::new();
                eff.push(Effect::ReadMethodSignature(node));
                eff
            },
            UiAction::CloseMethodCall => {
                self.model.method_call = None;
                Vec::new()
            },
            UiAction::MethodArgEdited { index, value } => self.act_arg_edited(index, value),
            UiAction::CallMethodConfirmed => self.confirm_method_call(),
            UiAction::Subscribe(node) => self.act_subscribe(node, false),
            UiAction::Unsubscribe(node) => self.act_subscribe(node, true),
        }
    }
}

} // verus!
