//! The terminal front end's own state and decisions: start-up from saved
//! state and the command line, what is saved, quitting, which widgets take
//! focus, and where focus goes when the connection changes.
use vstd::prelude::*;
use crate::collections::AssocList;
use crate::model::{AppModel, ConnectionState, views};
use crate::node_id::{NodeId, NodeIdView};
use crate::tui_view::{RefRow, TreeRow};
use crate::types::{AuthMode, SecurityMode};

verus! {

/// The command line of the terminal browser.
pub struct TuiArgs {
    /// Endpoint URL to connect to on start.
    pub url: Option<String>,
    /// Browse path to go to once connected.
    pub path: Option<String>,
}

impl TuiArgs {
    /// Either option makes the browser connect on start.
    pub fn auto_connect(&self) -> (r: bool)
        ensures
            r == (self.url is Some || self.path is Some),
    {
        self.url.is_some() || self.path.is_some()
    }
}

/// The connection dialog's choices remembered for a URL.
pub struct ConnectionSelection {
    pub auth_mode: AuthMode,
    pub security_mode: SecurityMode,
    pub username: String,
    pub cert_path: String,
    pub key_path: String,
}

impl Default for ConnectionSelection {
    fn default() -> (r: Self)
        ensures
            r.auth_mode == AuthMode::Anonymous,
            r.security_mode == SecurityMode::NoSecurity,
            r.username@ == Seq::<char>::empty(),
            r.cert_path@ == Seq::<char>::empty(),
            r.key_path@ == Seq::<char>::empty(),
    {
        ConnectionSelection {
            auth_mode: AuthMode::Anonymous,
            security_mode: SecurityMode::NoSecurity,
            username: String::new(),
            cert_path: String::new(),
            key_path: String::new(),
        }
    }
}

impl Clone for ConnectionSelection {
    fn clone(&self) -> (r: Self)
        ensures
            r == *self,
    {
        ConnectionSelection {
            auth_mode: self.auth_mode,
            security_mode: self.security_mode,
            username: self.username.clone(),
            cert_path: self.cert_path.clone(),
            key_path: self.key_path.clone(),
        }
    }
}

/// What the terminal browser keeps between runs.
pub struct SavedState {
    pub endpoint_url: Option<String>,
    pub endpoint_history: Vec<String>,
    /// Endpoint URL to the node ids (as text) from the root to the node
    /// last selected there.
    pub last_selection_paths: AssocList<String, Vec<String>>,
    /// Endpoint URL to the connection choices last made there.
    pub last_connection_selections: AssocList<String, ConnectionSelection>,
}

impl SavedState {
    /// Its maps are well formed.
    pub open spec fn wf(&self) -> bool {
        self.last_selection_paths.wf() && self.last_connection_selections.wf()
    }

    /// Nothing saved.
    pub fn empty() -> (s: SavedState)
        ensures
            s.wf(),
            s.endpoint_url is None,
            s.endpoint_history@ == Seq::<String>::empty(),
            s.last_selection_paths@ == Map::<Seq<char>, Vec<String>>::empty(),
            s.last_connection_selections@ == Map::<Seq<char>, ConnectionSelection>::empty(),
    {
        SavedState {
            endpoint_url: None,
            endpoint_history: Vec::new(),
            last_selection_paths: AssocList::new(),
            last_connection_selections: AssocList::new(),
        }
    }
}

impl Default for SavedState {
    fn default() -> (s: Self)
        ensures
            s.wf(),
            s.endpoint_url is None,
            s.endpoint_history@ == Seq::<String>::empty(),
            s.last_selection_paths@ == Map::<Seq<char>, Vec<String>>::empty(),
            s.last_connection_selections@ == Map::<Seq<char>, ConnectionSelection>::empty(),
    {
        SavedState::empty()
    }
}

/// The model at start-up: the saved URL and history where there are any,
/// then the URL of the command line, which also drops the selection
/// remembered for that URL.
pub open spec fn started(a: AppModel, saved: SavedState, args: TuiArgs, b: AppModel) -> bool {
    let url1 = match saved.endpoint_url { Some(u) => u, None => a.endpoint_url };
    let hist = if saved.endpoint_history@.len() > 0 { saved.endpoint_history } else { a.endpoint_history };
    match args.url {
        Some(u) => {
            &&& b.last_selection_paths@ == a.last_selection_paths@.remove(u@)
            &&& b == (AppModel { endpoint_url: u, endpoint_history: hist, last_selection_paths: b.last_selection_paths, ..a })
        },
        None => b == (AppModel { endpoint_url: url1, endpoint_history: hist, ..a }),
    }
}

/// Applies the saved state and the command line to the model; tells
/// whether to connect at once.
pub fn apply_startup(model: &mut AppModel, saved: SavedState, args: &TuiArgs) -> (auto: bool)
    requires
        old(model).wf(),
    ensures
        final(model).wf(),
        started(*old(model), saved, *args, *final(model)),
        auto == (args.url is Some || args.path is Some),
{
    let SavedState { endpoint_url, endpoint_history, .. } = saved;
    if let Some(url) = endpoint_url {
        model.endpoint_url = url;
    }
    if endpoint_history.len() > 0 {
        model.endpoint_history = endpoint_history;
    }
    if let Some(url) = &args.url {
        model.endpoint_url = url.clone();
        model.last_selection_paths.remove(url);
    }
    args.auto_connect()
}

/// What is saved when the browser ends: the current URL and the history.
pub fn saved_state_of(model: &AppModel) -> (s: SavedState)
    ensures
        s.wf(),
        s.endpoint_url matches Some(u) && u@ == model.endpoint_url@,
        views(s.endpoint_history@) == views(model.endpoint_history@),
        s.last_selection_paths@ == Map::<Seq<char>, Vec<String>>::empty(),
        s.last_connection_selections@ == Map::<Seq<char>, ConnectionSelection>::empty(),
{
    let mut hist: Vec<String> = Vec::new();
    let mut i: usize = 0;
    while i < model.endpoint_history.len()
        invariant
            0 <= i <= model.endpoint_history@.len(),
            hist@ == model.endpoint_history@.take(i as int),
        decreases model.endpoint_history.len() - i,
    {
        hist.push(model.endpoint_history[i].clone());
        assert(model.endpoint_history@.take(i + 1) =~= model.endpoint_history@.take(i as int).push(model.endpoint_history@[i as int]));
        i = i + 1;
    }
    assert(model.endpoint_history@.take(model.endpoint_history@.len() as int) =~= model.endpoint_history@);
    SavedState {
        endpoint_url: Some(model.endpoint_url.clone()),
        endpoint_history: hist,
        last_selection_paths: AssocList::new(),
        last_connection_selections: AssocList::new(),
    }
}

/// What a quit request does.
#[derive(PartialEq, Eq, Structural, Clone, Copy, Debug)]
pub enum QuitAction {
    /// Leave now.
    Quit,
    /// Disconnect first, and leave once disconnected.
    DisconnectFirst,
    /// A disconnect is under way; leave once it is done.
    AwaitDisconnect,
}

/// The widget that takes focus.
#[derive(PartialEq, Eq, Structural, Clone, Copy, Debug)]
pub enum FocusTarget {
    UrlField,
    DisconnectButton,
    Tree,
}

/// Which widgets may take focus.
#[derive(PartialEq, Eq, Structural, Clone, Copy, Debug)]
pub struct GateFlags {
    pub url: bool,
    pub connect: bool,
    pub disconnect: bool,
    pub tree: bool,
    pub attrs: bool,
    pub refs: bool,
}

/// Is a session with a server open or being opened?
pub open spec fn in_session(c: ConnectionState) -> bool {
    c == ConnectionState::Connected || c == ConnectionState::Connecting || c == ConnectionState::Reconnecting
}

/// The URL and Connect take focus only while disconnected, Disconnect while
/// a session is open or being opened, and the tree and detail panes only
/// while connected.
pub open spec fn gates_for(c: ConnectionState) -> GateFlags {
    GateFlags {
        url: c == ConnectionState::Disconnected,
        connect: c == ConnectionState::Disconnected,
        disconnect: in_session(c),
        tree: c == ConnectionState::Connected,
        attrs: c == ConnectionState::Connected,
        refs: c == ConnectionState::Connected,
    }
}

pub fn focus_gates(c: ConnectionState) -> (g: GateFlags)
    ensures
        g == gates_for(c),
{
    let disconnected = c == ConnectionState::Disconnected;
    let connected = c == ConnectionState::Connected;
    let session = connected || c == ConnectionState::Connecting || c == ConnectionState::Reconnecting;
    GateFlags { url: disconnected, connect: disconnected, disconnect: session, tree: connected, attrs: connected, refs: connected }
}

/// Where focus goes when the connection enters state `c`.
pub open spec fn focus_for(c: ConnectionState) -> FocusTarget {
    match c {
        ConnectionState::Disconnected => FocusTarget::UrlField,
        ConnectionState::Connected => FocusTarget::Tree,
        _ => FocusTarget::DisconnectButton,
    }
}

/// Does ending the browser in state `c` need a last disconnect?
pub fn needs_final_disconnect(c: ConnectionState) -> (r: bool)
    ensures
        r == in_session(c),
{
    c == ConnectionState::Connected || c == ConnectionState::Connecting || c == ConnectionState::Reconnecting
}

/// The terminal browser's own state beside the model.
pub struct TuiSession {
    pub pending_quit: bool,
    pub quit_scheduled: bool,
    pub last_connection: ConnectionState,
    /// The `--path` still to go to once connected.
    pub cli_path: Option<String>,
}

impl TuiSession {
    pub fn new(cli_path: Option<String>) -> (s: TuiSession)
        ensures
            !s.pending_quit,
            !s.quit_scheduled,
            s.last_connection == ConnectionState::Disconnected,
            s.cli_path == cli_path,
    {
        TuiSession { pending_quit: false, quit_scheduled: false, last_connection: ConnectionState::Disconnected, cli_path }
    }

    /// A quit request: a second request while one is pending leaves at
    /// once; otherwise an open session is disconnected first.
    pub fn request_quit(&mut self, c: ConnectionState) -> (a: QuitAction)
        ensures
            a == if old(self).pending_quit {
                QuitAction::Quit
            } else if c == ConnectionState::Disconnected {
                QuitAction::Quit
            } else if c == ConnectionState::Disconnecting {
                QuitAction::AwaitDisconnect
            } else {
                QuitAction::DisconnectFirst
            },
            final(self).pending_quit == (old(self).pending_quit || c != ConnectionState::Disconnected),
            final(self).quit_scheduled == old(self).quit_scheduled,
            final(self).last_connection == old(self).last_connection,
            final(self).cli_path == old(self).cli_path,
    {
        if self.pending_quit {
            return QuitAction::Quit;
        }
        match c {
            ConnectionState::Disconnected => QuitAction::Quit,
            ConnectionState::Disconnecting => {
                self.pending_quit = true;
                QuitAction::AwaitDisconnect
            },
            _ => {
                self.pending_quit = true;
                QuitAction::DisconnectFirst
            },
        }
    }

    /// After an update: is it time to schedule the pending quit? It is,
    /// once, when a quit is pending and the connection is closed.
    pub fn finish_quit_due(&mut self, c: ConnectionState) -> (due: bool)
        ensures
            due == (old(self).pending_quit && !old(self).quit_scheduled && c == ConnectionState::Disconnected),
            final(self).quit_scheduled == (old(self).quit_scheduled || due),
            final(self).pending_quit == old(self).pending_quit,
            final(self).last_connection == old(self).last_connection,
            final(self).cli_path == old(self).cli_path,
    {
        if !self.pending_quit || self.quit_scheduled {
            return false;
        }
        if c != ConnectionState::Disconnected {
            return false;
        }
        self.quit_scheduled = true;
        true
    }

    /// After an update: when the connection state changed, where focus
    /// goes and, on connecting, the `--path` to go to (handed out once).
    pub fn connection_changed(&mut self, c: ConnectionState) -> (r: Option<(FocusTarget, Option<String>)>)
        ensures
            old(self).last_connection == c ==> r is None && *final(self) == *old(self),
            old(self).last_connection != c ==> {
                &&& r matches Some((t, p)) && t == focus_for(c)
                    && p == if c == ConnectionState::Connected { old(self).cli_path } else { None }
                &&& final(self).last_connection == c
                &&& final(self).cli_path == if c == ConnectionState::Connected { None } else { old(self).cli_path }
                &&& final(self).pending_quit == old(self).pending_quit
                &&& final(self).quit_scheduled == old(self).quit_scheduled
            },
    {
        if self.last_connection == c {
            return None;
        }
        self.last_connection = c;
        let target = match c {
            ConnectionState::Disconnected => FocusTarget::UrlField,
            ConnectionState::Connected => FocusTarget::Tree,
            _ => FocusTarget::DisconnectButton,
        };
        let path = if c == ConnectionState::Connected { self.cli_path.take() } else { None };
        Some((target, path))
    }
}

/// The entries of the references list: a loading line, the rows, or a line
/// saying there are none; placeholder lines point at the null node.
pub open spec fn ref_items_of(loading: bool, rows: Seq<RefRow>) -> Seq<(Seq<char>, NodeIdView)> {
    let null = NodeIdView { namespace: 0, identifier: crate::node_id::IdentifierView::Numeric(0) };
    if loading {
        seq![("(loading…)"@, null)]
    } else if rows.len() == 0 {
        seq![("(no references)"@, null)]
    } else {
        rows.map_values(|r: RefRow| (r.label@, r.target@))
    }
}

/// The entries shown in the references list.
pub fn ref_list_items(loading: bool, rows: &Vec<RefRow>) -> (items: Vec<(String, NodeId)>)
    ensures
        items@.map_values(|e: (String, NodeId)| (e.0@, e.1@)) == ref_items_of(loading, rows@),
{
    let mut items: Vec<(String, NodeId)> = Vec::new();
    if loading {
        items.push((String::from_str("(loading…)"), NodeId::null()));
        assert(items@.map_values(|e: (String, NodeId)| (e.0@, e.1@)) =~= ref_items_of(loading, rows@));
        return items;
    }
    let mut i: usize = 0;
    while i < rows.len()
        invariant
            0 <= i <= rows@.len(),
            items@.len() == i,
            forall|j: int| 0 <= j < i ==> (#[trigger] items@[j]).0@ == rows@[j].label@ && items@[j].1@ == rows@[j].target@,
        decreases rows.len() - i,
    {
        items.push((rows[i].label.clone(), rows[i].target.clone()));
        i = i + 1;
    }
    if rows.len() == 0 {
        items.push((String::from_str("(no references)"), NodeId::null()));
    }
    assert(items@.map_values(|e: (String, NodeId)| (e.0@, e.1@)) =~= ref_items_of(loading, rows@));
    items
}

/// Where the tree selection stays after the rows are rebuilt: the first row
/// of the node selected before, if it is still shown.
pub fn kept_selection(rows: &Vec<TreeRow>, target: &NodeId) -> (r: Option<usize>)
    ensures
        match r {
            Some(i) => i < rows@.len() && rows@[i as int].item.node_id@ == target@
                && forall|j: int| 0 <= j < i ==> #[trigger] rows@[j].item.node_id@ != target@,
            None => forall|j: int| 0 <= j < rows@.len() ==> #[trigger] rows@[j].item.node_id@ != target@,
        },
{
    let mut i: usize = 0;
    while i < rows.len()
        invariant
            0 <= i <= rows@.len(),
            forall|j: int| 0 <= j < i ==> #[trigger] rows@[j].item.node_id@ != target@,
        decreases rows.len() - i,
    {
        if rows[i].item.node_id.same(target) {
            return Some(i);
        }
        i = i + 1;
    }
    None
}

} // verus!
