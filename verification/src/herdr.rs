//! The Herdr side: the plain records of Herdr's workspace, tab and pane
//! lists, assembling them into navigation nodes, and the requests the
//! navigator sends. Talking to Herdr (socket or subprocess) and decoding
//! its JSON are the caller's part.

use vstd::prelude::*;
use crate::models::{AgentStatus, NavigationNode, NodeView};
use crate::text::{after_last, after_last_char, chars_of, extend_chars, str_eq, string_of, trim, trim_chars};

verus! {

/// One workspace of Herdr's workspace list.
#[derive(Debug, Clone)]
pub struct WorkspaceInfo {
    pub workspace_id: String,
    pub label: String,
}

/// One tab of Herdr's tab list.
#[derive(Debug, Clone)]
pub struct TabInfo {
    pub tab_id: String,
    pub workspace_id: String,
    pub label: Option<String>,
}

/// An agent status as Herdr reports it.
#[derive(Debug, Clone, Copy, PartialEq, Eq, Structural)]
pub enum AgentStatusWire {
    Idle,
    Working,
    Blocked,
    Done,
    Unknown,
}

/// One pane of Herdr's pane list.
#[derive(Debug, Clone)]
pub struct PaneInfo {
    pub pane_id: String,
    pub workspace_id: String,
    pub tab_id: String,
    pub focused: bool,
    pub label: Option<String>,
    pub agent: Option<String>,
    pub agent_status: Option<AgentStatusWire>,
    pub title: Option<String>,
}

/// The focused pane, as seen in the pane list.
#[derive(Debug, Clone)]
pub struct FocusedPaneInfo {
    pub pane_id: String,
    pub tab_id: String,
    pub workspace_id: String,
    pub label: String,
}

/// The mathematical value of a [`WorkspaceInfo`].
pub struct WsView {
    pub workspace_id: Seq<char>,
    pub label: Seq<char>,
}

/// The mathematical value of a [`TabInfo`].
pub struct TabView {
    pub tab_id: Seq<char>,
    pub workspace_id: Seq<char>,
    pub label: Option<Seq<char>>,
}

/// The mathematical value of a [`PaneInfo`].
pub struct PaneView {
    pub pane_id: Seq<char>,
    pub workspace_id: Seq<char>,
    pub tab_id: Seq<char>,
    pub focused: bool,
    pub label: Option<Seq<char>>,
    pub agent: Option<Seq<char>>,
    pub agent_status: Option<AgentStatusWire>,
    pub title: Option<Seq<char>>,
}

/// The mathematical value of a [`FocusedPaneInfo`].
pub struct FocusedView {
    pub pane_id: Seq<char>,
    pub tab_id: Seq<char>,
    pub workspace_id: Seq<char>,
    pub label: Seq<char>,
}

impl DeepView for WorkspaceInfo {
    type V = WsView;

    open spec fn deep_view(&self) -> WsView {
        WsView { workspace_id: self.workspace_id@, label: self.label@ }
    }
}

impl DeepView for TabInfo {
    type V = TabView;

    open spec fn deep_view(&self) -> TabView {
        TabView { tab_id: self.tab_id@, workspace_id: self.workspace_id@, label: self.label.deep_view() }
    }
}

impl DeepView for PaneInfo {
    type V = PaneView;

    open spec fn deep_view(&self) -> PaneView {
        PaneView {
            pane_id: self.pane_id@,
            workspace_id: self.workspace_id@,
            tab_id: self.tab_id@,
            focused: self.focused,
            label: self.label.deep_view(),
            agent: self.agent.deep_view(),
            agent_status: self.agent_status,
            title: self.title.deep_view(),
        }
    }
}

impl DeepView for FocusedPaneInfo {
    type V = FocusedView;

    open spec fn deep_view(&self) -> FocusedView {
        FocusedView {
            pane_id: self.pane_id@,
            tab_id: self.tab_id@,
            workspace_id: self.workspace_id@,
            label: self.label@,
        }
    }
}

// ── Agent status ──

/// The navigator's status for a wire status; an unknown one means no agent.
pub open spec fn status_of(w: AgentStatusWire) -> AgentStatus {
    match w {
        AgentStatusWire::Working => AgentStatus::Working,
        AgentStatusWire::Blocked => AgentStatus::Blocked,
        AgentStatusWire::Done => AgentStatus::Done,
        AgentStatusWire::Idle => AgentStatus::Idle,
        AgentStatusWire::Unknown => AgentStatus::NoAgent,
    }
}

impl From<AgentStatusWire> for AgentStatus {
    fn from(w: AgentStatusWire) -> (res: AgentStatus) {
        match w {
            AgentStatusWire::Working => AgentStatus::Working,
            AgentStatusWire::Blocked => AgentStatus::Blocked,
            AgentStatusWire::Done => AgentStatus::Done,
            AgentStatusWire::Idle => AgentStatus::Idle,
            AgentStatusWire::Unknown => AgentStatus::NoAgent,
        }
    }
}

impl vstd::std_specs::convert::FromSpecImpl<AgentStatusWire> for AgentStatus {
    open spec fn obeys_from_spec() -> bool {
        true
    }

    open spec fn from_spec(v: AgentStatusWire) -> AgentStatus {
        status_of(v)
    }
}

// ── Assembling the node list ──

/// A pane's label: its label, else its title, else empty.
pub open spec fn pane_label_of(p: PaneView) -> Seq<char> {
    match p.label {
        Some(l) => l,
        None => match p.title {
            Some(t) => t,
            None => seq![],
        },
    }
}

/// The name a pane is listed under: its label, else its title, unless that
/// is empty, in which case `untitled`.
pub open spec fn pane_display_name(p: PaneView) -> Seq<char> {
    let n = match p.label {
        Some(l) => Some(l),
        None => p.title,
    };
    match n {
        Some(x) => if x.len() > 0 {
            x
        } else {
            "untitled"@
        },
        None => "untitled"@,
    }
}

/// The name of a tab Herdr gives no label: `tab-` and the last
/// `:`-separated part of its id.
pub open spec fn short_tab_name(tab_id: Seq<char>) -> Seq<char> {
    "tab-"@ + after_last(tab_id, ':')
}

/// The name of a tab of the tab list: its label, else its short name.
pub open spec fn listed_tab_name(t: TabView) -> Seq<char> {
    match t.label {
        Some(l) => l,
        None => short_tab_name(t.tab_id),
    }
}

/// The name the tab list gives tab `tab_id` of workspace `ws` (the last
/// listing wins).
pub open spec fn tab_name_in(tabs: Seq<TabView>, ws: Seq<char>, tab_id: Seq<char>) -> Option<Seq<char>>
    decreases tabs.len(),
{
    if tabs.len() == 0 {
        None
    } else if tabs.last().workspace_id == ws && tabs.last().tab_id == tab_id {
        Some(listed_tab_name(tabs.last()))
    } else {
        tab_name_in(tabs.drop_last(), ws, tab_id)
    }
}

/// The label the workspace list gives workspace `id` (the last listing
/// wins).
pub open spec fn ws_label_in(ws: Seq<WsView>, id: Seq<char>) -> Option<Seq<char>>
    decreases ws.len(),
{
    if ws.len() == 0 {
        None
    } else if ws.last().workspace_id == id {
        Some(ws.last().label)
    } else {
        ws_label_in(ws.drop_last(), id)
    }
}

/// The navigation node of a pane.
pub open spec fn node_of(p: PaneView, ws: Seq<WsView>, tabs: Seq<TabView>) -> NodeView {
    NodeView {
        workspace_id: p.workspace_id,
        workspace_name: match ws_label_in(ws, p.workspace_id) {
            Some(l) => l,
            None => seq![],
        },
        tab_id: p.tab_id,
        tab_name: match tab_name_in(tabs, p.workspace_id, p.tab_id) {
            Some(n) => n,
            None => short_tab_name(p.tab_id),
        },
        pane_id: p.pane_id,
        pane_name: Some(pane_display_name(p)),
        agent_id: p.agent,
        agent_status: match p.agent_status {
            Some(w) => status_of(w),
            None => AgentStatus::NoAgent,
        },
        last_accessed_at: 0,
    }
}

/// The nodes of the panes, in pane order.
pub open spec fn nodes_of(panes: Seq<PaneView>, ws: Seq<WsView>, tabs: Seq<TabView>) -> Seq<NodeView> {
    Seq::new(panes.len(), |i: int| node_of(panes[i], ws, tabs))
}

/// The focused pane of the list (the last one marked focused), if any.
pub open spec fn focused_in(panes: Seq<PaneView>) -> Option<FocusedView>
    decreases panes.len(),
{
    if panes.len() == 0 {
        None
    } else if panes.last().focused {
        let p = panes.last();
        Some(FocusedView { pane_id: p.pane_id, tab_id: p.tab_id, workspace_id: p.workspace_id, label: pane_label_of(p) })
    } else {
        focused_in(panes.drop_last())
    }
}

fn status_from_wire(w: AgentStatusWire) -> (res: AgentStatus)
    ensures
        res == status_of(w),
{
    match w {
        AgentStatusWire::Working => AgentStatus::Working,
        AgentStatusWire::Blocked => AgentStatus::Blocked,
        AgentStatusWire::Done => AgentStatus::Done,
        AgentStatusWire::Idle => AgentStatus::Idle,
        AgentStatusWire::Unknown => AgentStatus::NoAgent,
    }
}

fn lit(s: &str) -> (res: String)
    ensures
        res@ == s@,
{
    s.to_owned()
}

fn pane_label(p: &PaneInfo) -> (res: String)
    ensures
        res@ == pane_label_of(p.deep_view()),
{
    proof {
        reveal_strlit("");
    }
    match &p.label {
        Some(l) => l.clone(),
        None => match &p.title {
            Some(t) => t.clone(),
            None => lit(""),
        },
    }
}

fn pane_display_name_of(p: &PaneInfo) -> (res: String)
    ensures
        res@ == pane_display_name(p.deep_view()),
{
    let n: Option<&String> = match &p.label {
        Some(l) => Some(l),
        None => match &p.title {
            Some(t) => Some(t),
            None => None,
        },
    };
    match n {
        Some(x) => if x.as_str().is_empty() {
            lit("untitled")
        } else {
            x.clone()
        },
        None => lit("untitled"),
    }
}

fn short_tab_name_of(tab_id: &str) -> (res: String)
    ensures
        res@ == short_tab_name(tab_id@),
{
    let mut v = chars_of("tab-");
    let c = chars_of(tab_id);
    let short = after_last_char(c.as_slice(), ':');
    extend_chars(&mut v, short.as_slice());
    string_of(v.as_slice())
}

fn tab_name_lookup(tabs: &[TabInfo], ws: &str, tab_id: &str) -> (res: Option<String>)
    ensures
        res.deep_view() == tab_name_in(tabs.deep_view(), ws@, tab_id@),
{
    let ghost tv = tabs.deep_view();
    let mut j: usize = tabs.len();
    assert(tv.take(j as int) =~= tv);
    while j > 0
        invariant
            j <= tabs@.len(),
            tv == tabs.deep_view(),
            tab_name_in(tv, ws@, tab_id@) == tab_name_in(tv.take(j as int), ws@, tab_id@),
        decreases j,
    {
        let t = &tabs[j - 1];
        proof {
            assert(tv.take(j as int).last() == t.deep_view());
            assert(tv.take(j as int).drop_last() =~= tv.take(j - 1));
        }
        if str_eq(t.workspace_id.as_str(), ws) && str_eq(t.tab_id.as_str(), tab_id) {
            let name = match &t.label {
                Some(l) => l.clone(),
                None => short_tab_name_of(t.tab_id.as_str()),
            };
            return Some(name);
        }
        j = j - 1;
    }
    None
}

fn ws_label_lookup(ws: &[WorkspaceInfo], id: &str) -> (res: Option<String>)
    ensures
        res.deep_view() == ws_label_in(ws.deep_view(), id@),
{
    let ghost wv = ws.deep_view();
    let mut j: usize = ws.len();
    assert(wv.take(j as int) =~= wv);
    while j > 0
        invariant
            j <= ws@.len(),
            wv == ws.deep_view(),
            ws_label_in(wv, id@) == ws_label_in(wv.take(j as int), id@),
        decreases j,
    {
        let w = &ws[j - 1];
        proof {
            assert(wv.take(j as int).last() == w.deep_view());
            assert(wv.take(j as int).drop_last() =~= wv.take(j - 1));
        }
        if str_eq(w.workspace_id.as_str(), id) {
            return Some(w.label.clone());
        }
        j = j - 1;
    }
    None
}

fn node_of_pane(p: &PaneInfo, ws: &[WorkspaceInfo], tabs: &[TabInfo]) -> (res: NavigationNode)
    ensures
        res.deep_view() == node_of(p.deep_view(), ws.deep_view(), tabs.deep_view()),
{
    proof {
        reveal_strlit("");
    }
    let workspace_name = match ws_label_lookup(ws, p.workspace_id.as_str()) {
        Some(l) => l,
        None => lit(""),
    };
    let tab_name = match tab_name_lookup(tabs, p.workspace_id.as_str(), p.tab_id.as_str()) {
        Some(n) => n,
        None => short_tab_name_of(p.tab_id.as_str()),
    };
    let agent_status = match p.agent_status {
        Some(w) => status_from_wire(w),
        None => AgentStatus::NoAgent,
    };
    let agent_id = match &p.agent {
        Some(a) => Some(a.clone()),
        None => None,
    };
    let res = NavigationNode {
        workspace_id: p.workspace_id.clone(),
        workspace_name,
        tab_id: p.tab_id.clone(),
        tab_name,
        pane_id: p.pane_id.clone(),
        pane_name: Some(pane_display_name_of(p)),
        agent_id,
        agent_status,
        last_accessed_at: 0,
    };
    let ghost e = node_of(p.deep_view(), ws.deep_view(), tabs.deep_view());
    assert(res.deep_view().workspace_name == e.workspace_name);
    assert(res.deep_view().tab_name == e.tab_name);
    assert(res.deep_view().pane_name == e.pane_name);
    assert(res.deep_view().agent_id == e.agent_id);
    assert(res.deep_view().agent_status == e.agent_status);
    res
}

/// The panes of a list in the view, or none when the list could not be
/// fetched.
pub open spec fn listed<T: DeepView>(l: Option<Vec<T>>) -> Seq<T::V> {
    match l {
        Some(v) => v.deep_view(),
        None => seq![],
    }
}

/// Assembles the navigation nodes from Herdr's workspace, tab and pane
/// lists, with the focused pane's info.
///
/// A failure to list workspaces is the result's error; a tab or pane list
/// that could not be fetched counts as empty. Each pane gives one node, in
/// pane order: workspace name from the workspace list (empty if unlisted),
/// tab name from the tab list (`tab-<short id>` if unlisted or unlabelled),
/// pane name from its label or title (`untitled` if empty), and its agent.
pub fn fetch_all_nodes(
    workspaces: Result<Vec<WorkspaceInfo>, String>,
    tabs: Option<Vec<TabInfo>>,
    panes: Option<Vec<PaneInfo>>,
) -> (res: Result<(Vec<NavigationNode>, Option<FocusedPaneInfo>), String>)
    ensures
        match workspaces {
            Err(e) => res matches Err(r) && r@ == e@,
            Ok(ws) => res matches Ok((nodes, focused)) && nodes.deep_view() == nodes_of(
                listed(panes),
                ws.deep_view(),
                listed(tabs),
            ) && focused.deep_view() == focused_in(listed(panes)),
        },
{
    let ws = match workspaces {
        Err(e) => {
            return Err(e);
        },
        Ok(ws) => ws,
    };
    let all_tabs: Vec<TabInfo> = match tabs {
        Some(t) => t,
        None => Vec::new(),
    };
    let all_panes: Vec<PaneInfo> = match panes {
        Some(p) => p,
        None => Vec::new(),
    };
    assert(all_tabs.deep_view() == listed(tabs));
    assert(all_panes.deep_view() == listed(panes)) by {
        if panes is None {
            assert(all_panes.deep_view() =~= Seq::<PaneView>::empty());
        }
    }
    assert(all_tabs.deep_view() == listed(tabs)) by {
        if tabs is None {
            assert(all_tabs.deep_view() =~= Seq::<TabView>::empty());
        }
    }
    let ghost pv = all_panes.deep_view();
    let mut nodes: Vec<NavigationNode> = Vec::new();
    let mut active: Option<FocusedPaneInfo> = None;
    let mut i: usize = 0;
    assert(pv.take(0) =~= Seq::<PaneView>::empty());
    while i < all_panes.len()
        invariant
            i <= all_panes@.len(),
            pv == all_panes.deep_view(),
            nodes.deep_view() == nodes_of(pv.take(i as int), ws.deep_view(), all_tabs.deep_view()),
            active.deep_view() == focused_in(pv.take(i as int)),
        decreases all_panes@.len() - i,
    {
        let p = &all_panes[i];
        proof {
            assert(pv.take(i + 1).drop_last() =~= pv.take(i as int));
            assert(pv.take(i + 1).last() == p.deep_view());
        }
        if p.focused {
            active = Some(
                FocusedPaneInfo {
                    pane_id: p.pane_id.clone(),
                    tab_id: p.tab_id.clone(),
                    workspace_id: p.workspace_id.clone(),
                    label: pane_label(p),
                },
            );
        }
        let n = node_of_pane(p, ws.as_slice(), all_tabs.as_slice());
        let ghost before = nodes.deep_view();
        nodes.push(n);
        proof {
            let next = nodes_of(pv.take(i + 1), ws.deep_view(), all_tabs.deep_view());
            let prev = nodes_of(pv.take(i as int), ws.deep_view(), all_tabs.deep_view());
            assert(nodes.deep_view() =~= before.push(n.deep_view()));
            assert forall|k: int| 0 <= k < next.len() implies next[k] == nodes.deep_view()[k] by {
                if k < i {
                    assert(pv.take(i + 1)[k] == pv.take(i as int)[k]);
                    assert(prev[k] == next[k]);
                } else {
                    assert(pv.take(i + 1)[k] == p.deep_view());
                }
            }
            assert(nodes.deep_view() =~= next);
        }
        i = i + 1;
    }
    assert(pv.take(all_panes@.len() as int) =~= pv);
    Ok((nodes, active))
}

// ── Single lookups ──

/// The first pane of the list marked focused, if any.
pub open spec fn first_focused(panes: Seq<PaneView>) -> Option<PaneView>
    decreases panes.len(),
{
    if panes.len() == 0 {
        None
    } else if panes[0].focused {
        Some(panes[0])
    } else {
        first_focused(panes.drop_first())
    }
}

/// The focused pane's ids and label (label, else title, else empty) from
/// the pane list; an error when the list could not be fetched or no pane
/// is focused.
pub fn fetch_focused_pane_info(panes: Result<Vec<PaneInfo>, String>) -> (res: Result<(String, String, String, String), String>)
    ensures
        match panes {
            Err(e) => res matches Err(r) && r@ == e@,
            Ok(v) => match first_focused(v.deep_view()) {
                Some(p) => res matches Ok(t) && t.0@ == p.pane_id && t.1@ == p.tab_id && t.2@ == p.workspace_id
                    && t.3@ == pane_label_of(p),
                None => res matches Err(r) && r@ == "No focused pane in pane list"@,
            },
        },
{
    let v = match panes {
        Err(e) => {
            return Err(e);
        },
        Ok(v) => v,
    };
    let ghost pv = v.deep_view();
    let mut i: usize = 0;
    assert(pv.skip(0) =~= pv);
    while i < v.len()
        invariant
            i <= v@.len(),
            pv == v.deep_view(),
            panes == Ok::<Vec<PaneInfo>, String>(v),
            first_focused(pv) == first_focused(pv.skip(i as int)),
        decreases v@.len() - i,
    {
        proof {
            assert(pv.skip(i as int)[0] == v@[i as int].deep_view());
            assert(pv.skip(i as int).drop_first() =~= pv.skip(i + 1));
        }
        let p = &v[i];
        if p.focused {
            return Ok((p.pane_id.clone(), p.tab_id.clone(), p.workspace_id.clone(), pane_label(p)));
        }
        i = i + 1;
    }
    Err(lit("No focused pane in pane list"))
}

/// The first tab of the list with id `tab_id`, if any.
pub open spec fn first_tab(tabs: Seq<TabView>, tab_id: Seq<char>) -> Option<TabView>
    decreases tabs.len(),
{
    if tabs.len() == 0 {
        None
    } else if tabs[0].tab_id == tab_id {
        Some(tabs[0])
    } else {
        first_tab(tabs.drop_first(), tab_id)
    }
}

/// The label of tab `tab_id` from the tab list of its workspace: the first
/// listing of the tab decides; none when the list could not be fetched.
pub fn fetch_tab_name(tabs: Option<Vec<TabInfo>>, tab_id: &str) -> (res: Option<String>)
    ensures
        res.deep_view() == match first_tab(listed(tabs), tab_id@) {
            Some(t) => t.label,
            None => None,
        },
{
    let v = match tabs {
        None => {
            assert(listed(tabs) =~= Seq::<TabView>::empty());
            return None;
        },
        Some(v) => v,
    };
    let ghost tv = v.deep_view();
    let mut i: usize = 0;
    assert(tv.skip(0) =~= tv);
    while i < v.len()
        invariant
            i <= v@.len(),
            tv == v.deep_view(),
            tabs == Some(v),
            first_tab(tv, tab_id@) == first_tab(tv.skip(i as int), tab_id@),
        decreases v@.len() - i,
    {
        proof {
            assert(tv.skip(i as int)[0] == v@[i as int].deep_view());
            assert(tv.skip(i as int).drop_first() =~= tv.skip(i + 1));
        }
        let t = &v[i];
        if str_eq(t.tab_id.as_str(), tab_id) {
            return match &t.label {
                Some(l) => Some(l.clone()),
                None => None,
            };
        }
        i = i + 1;
    }
    None
}

/// The first workspace of the list with id `id`, if any.
pub open spec fn first_ws(ws: Seq<WsView>, id: Seq<char>) -> Option<WsView>
    decreases ws.len(),
{
    if ws.len() == 0 {
        None
    } else if ws[0].workspace_id == id {
        Some(ws[0])
    } else {
        first_ws(ws.drop_first(), id)
    }
}

/// The label of workspace `workspace_id` from the workspace list: the first
/// listing decides; none when the list could not be fetched.
pub fn fetch_workspace_name(workspaces: Option<Vec<WorkspaceInfo>>, workspace_id: &str) -> (res: Option<String>)
    ensures
        res.deep_view() == match first_ws(listed(workspaces), workspace_id@) {
            Some(w) => Some(w.label),
            None => None,
        },
{
    let v = match workspaces {
        None => {
            assert(listed(workspaces) =~= Seq::<WsView>::empty());
            return None;
        },
        Some(v) => v,
    };
    let ghost wv = v.deep_view();
    let mut i: usize = 0;
    assert(wv.skip(0) =~= wv);
    while i < v.len()
        invariant
            i <= v@.len(),
            wv == v.deep_view(),
            workspaces == Some(v),
            first_ws(wv, workspace_id@) == first_ws(wv.skip(i as int), workspace_id@),
        decreases v@.len() - i,
    {
        proof {
            assert(wv.skip(i as int)[0] == v@[i as int].deep_view());
            assert(wv.skip(i as int).drop_first() =~= wv.skip(i + 1));
        }
        let w = &v[i];
        if str_eq(w.workspace_id.as_str(), workspace_id) {
            return Some(w.label.clone());
        }
        i = i + 1;
    }
    None
}

// ── Requests ──

/// A parameter value of a JSON-RPC request.
#[derive(Debug, Clone)]
pub enum RpcParam {
    Text(String),
    Flag(bool),
}

/// The mathematical value of an [`RpcParam`].
pub enum ParamView {
    Text(Seq<char>),
    Flag(bool),
}

impl DeepView for RpcParam {
    type V = ParamView;

    open spec fn deep_view(&self) -> ParamView {
        match self {
            RpcParam::Text(s) => ParamView::Text(s@),
            RpcParam::Flag(b) => ParamView::Flag(*b),
        }
    }
}

/// A JSON-RPC request to Herdr's socket: the method and its named
/// parameters.
#[derive(Debug, Clone)]
pub struct RpcRequest {
    pub method: String,
    pub params: Vec<(String, RpcParam)>,
}

/// The JSON-RPC method and parameters of a Herdr command line, for the
/// commands the socket serves.
pub open spec fn rpc_for(args: Seq<Seq<char>>) -> Option<(Seq<char>, Seq<(Seq<char>, ParamView)>)> {
    if args == seq!["workspace"@, "list"@] {
        Some(("workspace.list"@, seq![]))
    } else if args == seq!["tab"@, "list"@] {
        Some(("tab.list"@, seq![]))
    } else if args == seq!["pane"@, "list"@] {
        Some(("pane.list"@, seq![]))
    } else if args.len() == 3 && args[0] == "workspace"@ && args[1] == "focus"@ {
        Some(("workspace.focus"@, seq![("workspace_id"@, ParamView::Text(args[2]))]))
    } else if args.len() == 3 && args[0] == "tab"@ && args[1] == "focus"@ {
        Some(("tab.focus"@, seq![("tab_id"@, ParamView::Text(args[2]))]))
    } else if args.len() == 4 && args[0] == "pane"@ && args[1] == "zoom"@ && args[3] == "--off"@ {
        Some(("pane.zoom"@, seq![("pane_id"@, ParamView::Text(args[2])), ("off"@, ParamView::Flag(true))]))
    } else if args.len() == 4 && args[0] == "tab"@ && args[1] == "list"@ && args[2] == "--workspace"@ {
        Some(("tab.list"@, seq![("workspace_id"@, ParamView::Text(args[3]))]))
    } else {
        None
    }
}

/// The views of request parameters.
pub open spec fn params_view(p: Seq<(String, RpcParam)>) -> Seq<(Seq<char>, ParamView)> {
    p.map_values(|x: (String, RpcParam)| (x.0@, x.1.deep_view()))
}

fn param(name: &str, value: RpcParam) -> (res: (String, RpcParam))
    ensures
        res.0@ == name@,
        res.1.deep_view() == value.deep_view(),
{
    (name.to_owned(), value)
}

/// Maps a Herdr command line to the JSON-RPC request that does the same over
/// Herdr's socket, for the commands the socket serves.
pub fn args_to_method(args: &[&str]) -> (res: Option<RpcRequest>)
    ensures
        match rpc_for(args.deep_view()) {
            Some((m, ps)) => res matches Some(r) && r.method@ == m && params_view(r.params@) == ps,
            None => res is None,
        },
{
    proof {
        reveal_strlit("workspace");
        reveal_strlit("tab");
        reveal_strlit("pane");
        reveal_strlit("list");
        reveal_strlit("focus");
        reveal_strlit("zoom");
        reveal_strlit("--off");
        reveal_strlit("--workspace");
    }
    let ghost a = args.deep_view();
    let n = args.len();
    let empty: Vec<(String, RpcParam)> = Vec::new();
    assert(params_view(empty@) =~= Seq::<(Seq<char>, ParamView)>::empty());
    if n == 2 && str_eq(args[0], "workspace") && str_eq(args[1], "list") {
        assert(a =~= seq!["workspace"@, "list"@]);
        return Some(RpcRequest { method: lit("workspace.list"), params: empty });
    }
    if n == 2 && str_eq(args[0], "tab") && str_eq(args[1], "list") {
        assert(a =~= seq!["tab"@, "list"@]);
        assert(a != seq!["workspace"@, "list"@]) by {
            assert(a[0] != "workspace"@);
        }
        return Some(RpcRequest { method: lit("tab.list"), params: empty });
    }
    if n == 2 && str_eq(args[0], "pane") && str_eq(args[1], "list") {
        assert(a =~= seq!["pane"@, "list"@]);
        assert(a != seq!["workspace"@, "list"@]) by {
            assert(a[0] != "workspace"@);
        }
        assert(a != seq!["tab"@, "list"@]) by {
            assert(a[0] != "tab"@);
        }
        return Some(RpcRequest { method: lit("pane.list"), params: empty });
    }
    proof {
        if n == 2 {
            assert(a != seq!["workspace"@, "list"@]) by {
                if a == seq!["workspace"@, "list"@] {
                    assert(a[0] == "workspace"@ && a[1] == "list"@);
                }
            }
            assert(a != seq!["tab"@, "list"@]) by {
                if a == seq!["tab"@, "list"@] {
                    assert(a[0] == "tab"@ && a[1] == "list"@);
                }
            }
            assert(a != seq!["pane"@, "list"@]) by {
                if a == seq!["pane"@, "list"@] {
                    assert(a[0] == "pane"@ && a[1] == "list"@);
                }
            }
        }
    }
    if n == 3 && str_eq(args[0], "workspace") && str_eq(args[1], "focus") {
        let mut params: Vec<(String, RpcParam)> = Vec::new();
        params.push(param("workspace_id", RpcParam::Text(args[2].to_owned())));
        assert(params_view(params@) =~= seq![("workspace_id"@, ParamView::Text(a[2]))]);
        return Some(RpcRequest { method: lit("workspace.focus"), params });
    }
    if n == 3 && str_eq(args[0], "tab") && str_eq(args[1], "focus") {
        let mut params: Vec<(String, RpcParam)> = Vec::new();
        params.push(param("tab_id", RpcParam::Text(args[2].to_owned())));
        assert(params_view(params@) =~= seq![("tab_id"@, ParamView::Text(a[2]))]);
        return Some(RpcRequest { method: lit("tab.focus"), params });
    }
    if n == 4 && str_eq(args[0], "pane") && str_eq(args[1], "zoom") && str_eq(args[3], "--off") {
        let mut params: Vec<(String, RpcParam)> = Vec::new();
        params.push(param("pane_id", RpcParam::Text(args[2].to_owned())));
        params.push(param("off", RpcParam::Flag(true)));
        assert(params_view(params@) =~= seq![("pane_id"@, ParamView::Text(a[2])), ("off"@, ParamView::Flag(true))]);
        return Some(RpcRequest { method: lit("pane.zoom"), params });
    }
    if n == 4 && str_eq(args[0], "tab") && str_eq(args[1], "list") && str_eq(args[2], "--workspace") {
        let mut params: Vec<(String, RpcParam)> = Vec::new();
        params.push(param("workspace_id", RpcParam::Text(args[3].to_owned())));
        assert(params_view(params@) =~= seq![("workspace_id"@, ParamView::Text(a[3]))]);
        return Some(RpcRequest { method: lit("tab.list"), params });
    }
    proof {
        if n != 2 {
            assert(seq!["workspace"@, "list"@].len() == 2);
            assert(seq!["tab"@, "list"@].len() == 2);
            assert(seq!["pane"@, "list"@].len() == 2);
        }
        if n == 3 {
            assert(!(a[0] == "workspace"@ && a[1] == "focus"@));
            assert(!(a[0] == "tab"@ && a[1] == "focus"@));
        }
        if n == 4 {
            assert(!(a[0] == "pane"@ && a[1] == "zoom"@ && a[3] == "--off"@));
            assert(!(a[0] == "tab"@ && a[1] == "list"@ && a[2] == "--workspace"@));
        }
    }
    None
}

/// The Herdr command line that focuses workspace `id`.
pub open spec fn focus_workspace_args(id: Seq<char>) -> Seq<Seq<char>> {
    seq!["workspace"@, "focus"@, id]
}

/// The Herdr command line that focuses tab `id`.
pub open spec fn focus_tab_args(id: Seq<char>) -> Seq<Seq<char>> {
    seq!["tab"@, "focus"@, id]
}

/// The Herdr command line that focuses pane `id`: an un-zoom, so that the
/// pane gets focus without toggling into the zoomed state.
pub open spec fn focus_pane_args(id: Seq<char>) -> Seq<Seq<char>> {
    seq!["pane"@, "zoom"@, id, "--off"@]
}

/// The views of a command line.
pub open spec fn args_view(v: Seq<String>) -> Seq<Seq<char>> {
    v.map_values(|s: String| s@)
}

/// The command that focuses workspace `workspace_id`.
pub fn focus_workspace(workspace_id: &str) -> (res: Vec<String>)
    ensures
        args_view(res@) == focus_workspace_args(workspace_id@),
{
    let mut v: Vec<String> = Vec::new();
    v.push(lit("workspace"));
    v.push(lit("focus"));
    v.push(workspace_id.to_owned());
    assert(args_view(v@) =~= focus_workspace_args(workspace_id@));
    v
}

/// The command that focuses tab `tab_id`.
pub fn focus_tab(tab_id: &str) -> (res: Vec<String>)
    ensures
        args_view(res@) == focus_tab_args(tab_id@),
{
    let mut v: Vec<String> = Vec::new();
    v.push(lit("tab"));
    v.push(lit("focus"));
    v.push(tab_id.to_owned());
    assert(args_view(v@) =~= focus_tab_args(tab_id@));
    v
}

/// The command that focuses pane `pane_id` without zooming it.
pub fn focus_pane(pane_id: &str) -> (res: Vec<String>)
    ensures
        args_view(res@) == focus_pane_args(pane_id@),
{
    let mut v: Vec<String> = Vec::new();
    v.push(lit("pane"));
    v.push(lit("zoom"));
    v.push(pane_id.to_owned());
    v.push(lit("--off"));
    assert(args_view(v@) =~= focus_pane_args(pane_id@));
    v
}

// ── The overlay pane ──

/// An environment value that counts as set: present and not empty.
pub open spec fn set_value(env: Option<Seq<char>>) -> Option<Seq<char>> {
    match env {
        Some(s) => if s.len() > 0 {
            Some(s)
        } else {
            None
        },
        None => None,
    }
}

/// The value of an environment variable where it is set and not empty.
fn set_or_none(env: Option<String>) -> (res: Option<String>)
    ensures
        res.deep_view() == set_value(env.deep_view()),
{
    match env {
        Some(s) => if !s.as_str().is_empty() {
            Some(s)
        } else {
            None
        },
        None => None,
    }
}

/// The plugin the overlay pane belongs to: `HERDR_PLUGIN_ID` where it is set
/// and not empty, else `recent-navigator`.
pub open spec fn plugin_id_of(env: Option<Seq<char>>) -> Seq<char> {
    match set_value(env) {
        Some(s) => s,
        None => "recent-navigator"@,
    }
}

/// The plugin id, from the value of `HERDR_PLUGIN_ID` if any.
pub fn plugin_id(env: Option<String>) -> (res: String)
    ensures
        res@ == plugin_id_of(env.deep_view()),
{
    match set_or_none(env) {
        Some(s) => s,
        None => lit("recent-navigator"),
    }
}

/// The Herdr binary: `HERDR_BIN_PATH` where it is set and not empty, else
/// `herdr` (found on the `PATH`).
pub open spec fn herdr_bin_of(env: Option<Seq<char>>) -> Seq<char> {
    match set_value(env) {
        Some(s) => s,
        None => "herdr"@,
    }
}

/// The Herdr binary, from the value of `HERDR_BIN_PATH` if any.
pub fn herdr_bin(env: Option<String>) -> (res: String)
    ensures
        res@ == herdr_bin_of(env.deep_view()),
{
    match set_or_none(env) {
        Some(s) => s,
        None => lit("herdr"),
    }
}

/// Herdr's socket, from the value of `HERDR_SOCKET_PATH` if any: none where
/// it is unset or empty.
pub fn sock_path(env: Option<String>) -> (res: Option<String>)
    ensures
        res.deep_view() == set_value(env.deep_view()),
{
    set_or_none(env)
}

/// The Herdr command line that closes the overlay pane whose id the lock
/// file holds (surrounding white space dropped).
pub open spec fn close_pane_args(lock: Seq<char>) -> Seq<Seq<char>> {
    seq!["plugin"@, "pane"@, "close"@, trim(lock)]
}

/// The Herdr command line that opens the navigator entry point of plugin
/// `plugin_id` as a focused popup pane.
pub open spec fn open_pane_args(plugin_id: Seq<char>) -> Seq<Seq<char>> {
    seq![
        "plugin"@,
        "pane"@,
        "open"@,
        "--plugin"@,
        plugin_id,
        "--entrypoint"@,
        "navigator"@,
        "--placement"@,
        "popup"@,
        "--focus"@,
    ]
}

/// The command that closes the pane named by the lock file's text.
pub fn close_pane(lock_text: &str) -> (res: Vec<String>)
    ensures
        args_view(res@) == close_pane_args(lock_text@),
{
    let c = chars_of(lock_text);
    let id = trim_chars(c.as_slice());
    let mut v: Vec<String> = Vec::new();
    v.push(lit("plugin"));
    v.push(lit("pane"));
    v.push(lit("close"));
    v.push(string_of(id.as_slice()));
    assert(args_view(v@) =~= close_pane_args(lock_text@));
    v
}

/// The command that opens the navigator pane of plugin `plugin_id`.
pub fn open_pane(plugin_id: &str) -> (res: Vec<String>)
    ensures
        args_view(res@) == open_pane_args(plugin_id@),
{
    let mut v: Vec<String> = Vec::new();
    v.push(lit("plugin"));
    v.push(lit("pane"));
    v.push(lit("open"));
    v.push(lit("--plugin"));
    v.push(plugin_id.to_owned());
    v.push(lit("--entrypoint"));
    v.push(lit("navigator"));
    v.push(lit("--placement"));
    v.push(lit("popup"));
    v.push(lit("--focus"));
    assert(args_view(v@) =~= open_pane_args(plugin_id@));
    v
}

/// The string that JSON pointer `pointer` addresses in the JSON document
/// `text`, as serde_json reads them.
pub uninterp spec fn json_string_at(text: Seq<char>, pointer: Seq<char>) -> Option<Seq<char>>;

/// Parses `text` with `serde_json::from_str` into a `serde_json::Value`,
/// looks `pointer` up with `Value::pointer` and takes the string there with
/// `Value::as_str`: `None` where the text is no JSON, nothing is at the
/// pointer or it is no string. Claimed: the result depends on the text and
/// the pointer alone; nothing more is stated of serde_json's parsing.
#[verifier::external_body]
fn json_pointer_string(text: &str, pointer: &str) -> (res: Option<String>)
    ensures
        res.deep_view() == json_string_at(text@, pointer@),
{
    serde_json::from_str::<serde_json::Value>(text).ok()?.pointer(pointer)?.as_str().map(String::from)
}

/// Where the id of a pane that `herdr plugin pane open` opened stands in its
/// JSON reply.
pub open spec fn pane_id_pointer() -> Seq<char> {
    "/result/plugin_pane/pane/pane_id"@
}

/// The pane id in a `herdr plugin pane open` reply
/// (`{"result":{"plugin_pane":{"pane":{"pane_id":"w1:p2",..}}}}`); `None`
/// for a reply that is no JSON or lacks it.
pub fn extract_pane_id(response: &str) -> (res: Option<String>)
    ensures
        res.deep_view() == json_string_at(response@, pane_id_pointer()),
{
    proof {
        reveal_strlit("/result/plugin_pane/pane/pane_id");
    }
    json_pointer_string(response, "/result/plugin_pane/pane/pane_id")
}

} // verus!
