//! The navigator's data model: navigation nodes, category tabs, display
//! rows, focus targets and key handling types.

use vstd::prelude::*;
use crate::text::{chars_of, extend_str, string_of};

verus! {

/// The status of an AI agent within a pane.
#[derive(Debug, Clone, Copy, PartialEq, Eq, Structural)]
pub enum AgentStatus {
    Working,
    Blocked,
    Done,
    Idle,
    /// Normal pane, no running AI agent.
    NoAgent,
}

impl AgentStatus {
    /// Whether the agent is actively doing work (the `Working` status).
    pub fn is_active(&self) -> (res: bool)
        ensures
            res == (*self == AgentStatus::Working),
    {
        match self {
            AgentStatus::Working => true,
            _ => false,
        }
    }
}

/// A pane with its workspace/tab/agent context.
#[derive(Debug, Clone)]
pub struct NavigationNode {
    pub workspace_id: String,
    pub workspace_name: String,
    pub tab_id: String,
    pub tab_name: String,
    pub pane_id: String,
    pub pane_name: Option<String>,
    pub agent_id: Option<String>,
    pub agent_status: AgentStatus,
    /// Millisecond timestamp for MRU sorting.
    pub last_accessed_at: u64,
}

/// The mathematical value of a [`NavigationNode`].
pub struct NodeView {
    pub workspace_id: Seq<char>,
    pub workspace_name: Seq<char>,
    pub tab_id: Seq<char>,
    pub tab_name: Seq<char>,
    pub pane_id: Seq<char>,
    pub pane_name: Option<Seq<char>>,
    pub agent_id: Option<Seq<char>>,
    pub agent_status: AgentStatus,
    pub last_accessed_at: u64,
}

impl DeepView for NavigationNode {
    type V = NodeView;

    open spec fn deep_view(&self) -> NodeView {
        NodeView {
            workspace_id: self.workspace_id@,
            workspace_name: self.workspace_name@,
            tab_id: self.tab_id@,
            tab_name: self.tab_name@,
            pane_id: self.pane_id@,
            pane_name: self.pane_name.deep_view(),
            agent_id: self.agent_id.deep_view(),
            agent_status: self.agent_status,
            last_accessed_at: self.last_accessed_at,
        }
    }
}

/// The category tabs at the top of the navigator.
#[derive(Debug, Clone, Copy, PartialEq, Eq, Structural)]
pub enum CategoryTab {
    Workspaces,
    Tabs,
    Agents,
    Panes,
    /// Non-agent panes by their runtime state (ssh target, command, cwd).
    Others,
    /// Every workspace, tab, pane and agent row at once.
    All,
}

/// The tabs shown by default, in display order.
pub open spec fn default_categories() -> Seq<CategoryTab> {
    seq![CategoryTab::Workspaces, CategoryTab::Tabs, CategoryTab::Panes, CategoryTab::Agents]
}

/// The first index of `t` in `s`.
pub open spec fn index_of(s: Seq<CategoryTab>, t: CategoryTab) -> Option<int>
    decreases s.len(),
{
    if s.len() == 0 {
        None
    } else if s[0] == t {
        Some(0)
    } else {
        match index_of(s.drop_first(), t) {
            Some(i) => Some(i + 1),
            None => None,
        }
    }
}

/// The tab after `t` in `enabled`, wrapping; the first tab when `t` is not
/// enabled.
pub open spec fn next_tab(enabled: Seq<CategoryTab>, t: CategoryTab) -> CategoryTab {
    match index_of(enabled, t) {
        Some(i) => enabled[(i + 1) % (enabled.len() as int)],
        None => enabled[0],
    }
}

/// The tab before `t` in `enabled`, wrapping; the first tab when `t` is
/// not enabled.
pub open spec fn previous_tab(enabled: Seq<CategoryTab>, t: CategoryTab) -> CategoryTab {
    match index_of(enabled, t) {
        Some(i) => enabled[(i + enabled.len() - 1) % (enabled.len() as int)],
        None => enabled[0],
    }
}

/// The display label of a tab.
pub open spec fn label_of(t: CategoryTab) -> Seq<char> {
    match t {
        CategoryTab::Workspaces => "Workspaces"@,
        CategoryTab::Tabs => "Tabs"@,
        CategoryTab::Agents => "Agents"@,
        CategoryTab::Panes => "Panes"@,
        CategoryTab::Others => "Others"@,
        CategoryTab::All => "All"@,
    }
}

pub proof fn lemma_index_of_bounds(s: Seq<CategoryTab>, t: CategoryTab)
    ensures
        index_of(s, t) matches Some(i) ==> 0 <= i < s.len() && s[i] == t && forall|j: int|
            0 <= j < i ==> s[j] != t,
        index_of(s, t) is None ==> !s.contains(t),
    decreases s.len(),
{
    if s.len() > 0 {
        lemma_index_of_bounds(s.drop_first(), t);
        if s[0] != t && index_of(s, t) is Some {
            let i = index_of(s, t)->0;
            assert forall|j: int| 0 <= j < i implies s[j] != t by {
                if j > 0 {
                    assert(s[j] == s.drop_first()[j - 1]);
                }
            }
        }
        if index_of(s, t) is None {
            assert forall|k: int| 0 <= k < s.len() implies s[k] != t by {
                if k > 0 {
                    assert(s[k] == s.drop_first()[k - 1]);
                }
            }
        }
    }
}

impl CategoryTab {
    /// The tabs shown by default, in display order.
    pub fn all() -> (res: [CategoryTab; 4])
        ensures
            res@ == default_categories(),
    {
        let res = [CategoryTab::Workspaces, CategoryTab::Tabs, CategoryTab::Panes, CategoryTab::Agents];
        assert(res@ =~= default_categories());
        res
    }

    /// The index of this tab in `enabled`.
    fn position_in(&self, enabled: &[CategoryTab]) -> (res: Option<usize>)
        ensures
            match res {
                Some(i) => index_of(enabled@, *self) == Some(i as int),
                None => index_of(enabled@, *self) is None,
            },
    {
        let mut i: usize = 0;
        assert(enabled@.skip(0) =~= enabled@);
        while i < enabled.len()
            invariant
                i <= enabled.len(),
                index_of(enabled@, *self) == match index_of(enabled@.skip(i as int), *self) {
                    Some(k) => Some(k + i),
                    None => None::<int>,
                },
            decreases enabled.len() - i,
        {
            assert(enabled@.skip(i as int).drop_first() =~= enabled@.skip(i + 1));
            if enabled[i] == *self {
                return Some(i);
            }
            i = i + 1;
        }
        None
    }

    /// The next tab within `enabled` (wrapping); the first enabled tab when
    /// this one is not enabled.
    pub fn next_in(&self, enabled: &[CategoryTab]) -> (res: CategoryTab)
        requires
            enabled.len() > 0,
        ensures
            res == next_tab(enabled@, *self),
    {
        assert(enabled@.skip(0) =~= enabled@);
        match self.position_in(enabled) {
            Some(i) => {
                proof {
                    lemma_index_of_bounds(enabled@, *self);
                }
                enabled[(i + 1) % enabled.len()]
            },
            None => enabled[0],
        }
    }

    /// The previous tab within `enabled` (wrapping); the first enabled tab
    /// when this one is not enabled.
    pub fn previous_in(&self, enabled: &[CategoryTab]) -> (res: CategoryTab)
        requires
            enabled.len() > 0,
        ensures
            res == previous_tab(enabled@, *self),
    {
        assert(enabled@.skip(0) =~= enabled@);
        match self.position_in(enabled) {
            Some(i) => {
                proof {
                    lemma_index_of_bounds(enabled@, *self);
                }
                let n = enabled.len();
                let j = if i == 0 {
                    n - 1
                } else {
                    i - 1
                };
                proof {
                    if i == 0 {
                        vstd::arithmetic::div_mod::lemma_small_mod((n - 1) as nat, n as nat);
                    } else {
                        vstd::arithmetic::div_mod::lemma_mod_add_multiples_vanish((i - 1) as int, n as int);
                        vstd::arithmetic::div_mod::lemma_small_mod((i - 1) as nat, n as nat);
                    }
                    assert((i + n - 1) == (n + (i - 1)) || i == 0);
                }
                enabled[j]
            },
            None => enabled[0],
        }
    }

    /// Display label for the tab.
    pub fn label(&self) -> (res: &'static str)
        ensures
            res@ == label_of(*self),
    {
        match self {
            CategoryTab::Workspaces => "Workspaces",
            CategoryTab::Tabs => "Tabs",
            CategoryTab::Agents => "Agents",
            CategoryTab::Panes => "Panes",
            CategoryTab::Others => "Others",
            CategoryTab::All => "All",
        }
    }
}


/// The category tab named `s` on the command line or in the config.
pub open spec fn category_named(s: Seq<char>) -> Option<CategoryTab> {
    if s == "workspaces"@ {
        Some(CategoryTab::Workspaces)
    } else if s == "tabs"@ {
        Some(CategoryTab::Tabs)
    } else if s == "agents"@ {
        Some(CategoryTab::Agents)
    } else if s == "panes"@ {
        Some(CategoryTab::Panes)
    } else {
        None
    }
}

impl CategoryTab {
    /// Parses a lowercase category name (`workspaces`, `tabs`, `agents`,
    /// `panes`); anything else is an error naming the input.
    pub fn parse(s: &str) -> (res: Result<CategoryTab, String>)
        ensures
            match res {
                Ok(t) => category_named(s@) == Some(t),
                Err(e) => category_named(s@) is None && e@ == "Unknown category tab: "@ + s@,
            },
    {
        let c = chars_of(s);
        if crate::text::eq_str(c.as_slice(), "workspaces") {
            Ok(CategoryTab::Workspaces)
        } else if crate::text::eq_str(c.as_slice(), "tabs") {
            Ok(CategoryTab::Tabs)
        } else if crate::text::eq_str(c.as_slice(), "agents") {
            Ok(CategoryTab::Agents)
        } else if crate::text::eq_str(c.as_slice(), "panes") {
            Ok(CategoryTab::Panes)
        } else {
            let mut msg: Vec<char> = Vec::new();
            extend_str(&mut msg, "Unknown category tab: ");
            extend_str(&mut msg, s);
            Err(string_of(msg.as_slice()))
        }
    }
}

impl std::str::FromStr for CategoryTab {
    type Err = String;

    fn from_str(s: &str) -> (res: Result<Self, Self::Err>)
        ensures
            match res {
                Ok(t) => category_named(s@) == Some(t),
                Err(e) => category_named(s@) is None && e@ == "Unknown category tab: "@ + s@,
            },
    {
        CategoryTab::parse(s)
    }
}

/// Which runtime state an "Others" row (or a content-search row) shows.
#[derive(Debug, Clone, Copy, PartialEq, Eq, Structural)]
pub enum OtherSource {
    /// The pane's ssh login target.
    Ssh,
    /// The pane's foreground command.
    Cmd,
    /// The pane's working directory.
    Cwd,
    /// A content-search hit in a pane that is editing a file.
    File,
    /// A content-search hit in plain terminal or command output.
    Terminal,
}

/// The Type column label of a source.
pub open spec fn source_label(s: OtherSource) -> Seq<char> {
    match s {
        OtherSource::Ssh => "ssh"@,
        OtherSource::Cmd => "cmd"@,
        OtherSource::Cwd => "cwd"@,
        OtherSource::File => "file"@,
        OtherSource::Terminal => "term"@,
    }
}

impl OtherSource {
    /// The Type column label of this source.
    pub fn label(&self) -> (res: &'static str)
        ensures
            res@ == source_label(*self),
    {
        match self {
            OtherSource::Ssh => "ssh",
            OtherSource::Cmd => "cmd",
            OtherSource::Cwd => "cwd",
            OtherSource::File => "file",
            OtherSource::Terminal => "term",
        }
    }
}

/// A pane's runtime state for the Others tab.
#[derive(Debug, Clone)]
pub struct PaneOthers {
    pub cwd: Option<String>,
    pub command: Option<String>,
    pub ssh_target: Option<String>,
}

/// The mathematical value of a [`PaneOthers`].
pub struct OthersView {
    pub cwd: Option<Seq<char>>,
    pub command: Option<Seq<char>>,
    pub ssh_target: Option<Seq<char>>,
}

impl DeepView for PaneOthers {
    type V = OthersView;

    open spec fn deep_view(&self) -> OthersView {
        OthersView {
            cwd: self.cwd.deep_view(),
            command: self.command.deep_view(),
            ssh_target: self.ssh_target.deep_view(),
        }
    }
}

/// One row of a category list. Each variant carries only the fields its
/// tab renders.
#[derive(Debug, Clone)]
pub enum DisplayItem {
    Workspace {
        name: String,
        id: String,
        pane_ids: Vec<String>,
        agent_statuses: Vec<AgentStatus>,
        last_accessed_at: u64,
    },
    Tab {
        name: String,
        workspace: String,
        tab_id: String,
        pane_ids: Vec<String>,
        agent_statuses: Vec<AgentStatus>,
        last_accessed_at: u64,
    },
    Agent {
        agent_id: String,
        status: AgentStatus,
        pane_id: String,
        tab: String,
        workspace: String,
        last_accessed_at: u64,
    },
    Pane {
        pane_id: String,
        pane_name: String,
        tab: String,
        workspace: String,
        agent_id: Option<String>,
        status: AgentStatus,
        last_accessed_at: u64,
    },
    Other {
        pane_id: String,
        pane_name: String,
        tab: String,
        workspace: String,
        source: OtherSource,
        detail: String,
        context: String,
        last_accessed_at: u64,
    },
}

/// The mathematical value of a [`DisplayItem`].
pub enum DisplayView {
    Workspace {
        name: Seq<char>,
        id: Seq<char>,
        pane_ids: Seq<Seq<char>>,
        agent_statuses: Seq<AgentStatus>,
        last_accessed_at: u64,
    },
    Tab {
        name: Seq<char>,
        workspace: Seq<char>,
        tab_id: Seq<char>,
        pane_ids: Seq<Seq<char>>,
        agent_statuses: Seq<AgentStatus>,
        last_accessed_at: u64,
    },
    Agent {
        agent_id: Seq<char>,
        status: AgentStatus,
        pane_id: Seq<char>,
        tab: Seq<char>,
        workspace: Seq<char>,
        last_accessed_at: u64,
    },
    Pane {
        pane_id: Seq<char>,
        pane_name: Seq<char>,
        tab: Seq<char>,
        workspace: Seq<char>,
        agent_id: Option<Seq<char>>,
        status: AgentStatus,
        last_accessed_at: u64,
    },
    Other {
        pane_id: Seq<char>,
        pane_name: Seq<char>,
        tab: Seq<char>,
        workspace: Seq<char>,
        source: OtherSource,
        detail: Seq<char>,
        context: Seq<char>,
        last_accessed_at: u64,
    },
}

impl DeepView for DisplayItem {
    type V = DisplayView;

    open spec fn deep_view(&self) -> DisplayView {
        match self {
            DisplayItem::Workspace { name, id, pane_ids, agent_statuses, last_accessed_at } =>
                DisplayView::Workspace {
                name: name@,
                id: id@,
                pane_ids: pane_ids.deep_view(),
                agent_statuses: agent_statuses@,
                last_accessed_at: *last_accessed_at,
            },
            DisplayItem::Tab { name, workspace, tab_id, pane_ids, agent_statuses, last_accessed_at } =>
                DisplayView::Tab {
                name: name@,
                workspace: workspace@,
                tab_id: tab_id@,
                pane_ids: pane_ids.deep_view(),
                agent_statuses: agent_statuses@,
                last_accessed_at: *last_accessed_at,
            },
            DisplayItem::Agent { agent_id, status, pane_id, tab, workspace, last_accessed_at } =>
                DisplayView::Agent {
                agent_id: agent_id@,
                status: *status,
                pane_id: pane_id@,
                tab: tab@,
                workspace: workspace@,
                last_accessed_at: *last_accessed_at,
            },
            DisplayItem::Pane {
                pane_id,
                pane_name,
                tab,
                workspace,
                agent_id,
                status,
                last_accessed_at,
            } => DisplayView::Pane {
                pane_id: pane_id@,
                pane_name: pane_name@,
                tab: tab@,
                workspace: workspace@,
                agent_id: agent_id.deep_view(),
                status: *status,
                last_accessed_at: *last_accessed_at,
            },
            DisplayItem::Other {
                pane_id,
                pane_name,
                tab,
                workspace,
                source,
                detail,
                context,
                last_accessed_at,
            } => DisplayView::Other {
                pane_id: pane_id@,
                pane_name: pane_name@,
                tab: tab@,
                workspace: workspace@,
                source: *source,
                detail: detail@,
                context: context@,
                last_accessed_at: *last_accessed_at,
            },
        }
    }
}

/// The MRU timestamp of a row.
pub open spec fn ts_of(v: DisplayView) -> u64 {
    match v {
        DisplayView::Workspace { last_accessed_at, .. } => last_accessed_at,
        DisplayView::Tab { last_accessed_at, .. } => last_accessed_at,
        DisplayView::Agent { last_accessed_at, .. } => last_accessed_at,
        DisplayView::Pane { last_accessed_at, .. } => last_accessed_at,
        DisplayView::Other { last_accessed_at, .. } => last_accessed_at,
    }
}

/// The secondary sort key of a row, for a stable order when timestamps tie.
pub open spec fn sort_key_of(v: DisplayView) -> Seq<char> {
    match v {
        DisplayView::Workspace { name, .. } => name,
        DisplayView::Tab { name, workspace, .. } => workspace + seq![':'] + name,
        DisplayView::Agent { agent_id, .. } => agent_id,
        DisplayView::Pane { pane_name, .. } => pane_name,
        DisplayView::Other { pane_name, .. } => pane_name,
    }
}

/// The text a row is fuzzy-matched against. An "Others" row starts with its
/// Type label, so typing `ssh` filters to ssh rows.
pub open spec fn search_text_of(v: DisplayView) -> Seq<char> {
    match v {
        DisplayView::Workspace { name, .. } => name,
        DisplayView::Tab { name, workspace, .. } => name + seq![' '] + workspace,
        DisplayView::Agent { agent_id, tab, workspace, .. } => agent_id + seq![' '] + tab + seq![' ']
            + workspace,
        DisplayView::Pane { pane_name, tab, workspace, agent_id, .. } => pane_name + seq![' '] + tab
            + seq![' '] + workspace + seq![' '] + match agent_id {
            Some(a) => a,
            None => seq![],
        },
        DisplayView::Other { pane_name, tab, workspace, source, detail, context, .. } =>
            source_label(source) + seq![' '] + detail + seq![' '] + context + seq![' '] + pane_name
            + seq![' '] + tab + seq![' '] + workspace,
    }
}

impl DisplayItem {
    /// The MRU timestamp of this row.
    pub fn display_ts(&self) -> (res: u64)
        ensures
            res == ts_of(self.deep_view()),
    {
        match self {
            DisplayItem::Workspace { last_accessed_at, .. } => *last_accessed_at,
            DisplayItem::Tab { last_accessed_at, .. } => *last_accessed_at,
            DisplayItem::Agent { last_accessed_at, .. } => *last_accessed_at,
            DisplayItem::Pane { last_accessed_at, .. } => *last_accessed_at,
            DisplayItem::Other { last_accessed_at, .. } => *last_accessed_at,
        }
    }

    /// The secondary sort key of this row, as characters.
    pub fn sort_key_chars(&self) -> (res: Vec<char>)
        ensures
            res@ == sort_key_of(self.deep_view()),
    {
        match self {
            DisplayItem::Workspace { name, .. } => chars_of(name.as_str()),
            DisplayItem::Tab { name, workspace, .. } => {
                let mut out = chars_of(workspace.as_str());
                out.push(':');
                extend_str(&mut out, name.as_str());
                out
            },
            DisplayItem::Agent { agent_id, .. } => chars_of(agent_id.as_str()),
            DisplayItem::Pane { pane_name, .. } => chars_of(pane_name.as_str()),
            DisplayItem::Other { pane_name, .. } => chars_of(pane_name.as_str()),
        }
    }

    /// Deterministic secondary sort key for stable ordering when timestamps tie.
    pub fn sort_key(&self) -> (res: String)
        ensures
            res@ == sort_key_of(self.deep_view()),
    {
        let c = self.sort_key_chars();
        string_of(c.as_slice())
    }

    /// The searchable text of this row, used for fuzzy matching.
    pub fn search_text(&self) -> (res: String)
        ensures
            res@ == search_text_of(self.deep_view()),
    {
        let mut out: Vec<char> = Vec::new();
        match self {
            DisplayItem::Workspace { name, .. } => {
                extend_str(&mut out, name.as_str());
            },
            DisplayItem::Tab { name, workspace, .. } => {
                extend_str(&mut out, name.as_str());
                out.push(' ');
                extend_str(&mut out, workspace.as_str());
            },
            DisplayItem::Agent { agent_id, tab, workspace, .. } => {
                extend_str(&mut out, agent_id.as_str());
                out.push(' ');
                extend_str(&mut out, tab.as_str());
                out.push(' ');
                extend_str(&mut out, workspace.as_str());
            },
            DisplayItem::Pane { pane_name, tab, workspace, agent_id, .. } => {
                extend_str(&mut out, pane_name.as_str());
                out.push(' ');
                extend_str(&mut out, tab.as_str());
                out.push(' ');
                extend_str(&mut out, workspace.as_str());
                out.push(' ');
                match agent_id {
                    Some(a) => {
                        extend_str(&mut out, a.as_str());
                    },
                    None => {},
                }
            },
            DisplayItem::Other { pane_name, tab, workspace, source, detail, context, .. } => {
                extend_str(&mut out, source.label());
                out.push(' ');
                extend_str(&mut out, detail.as_str());
                out.push(' ');
                extend_str(&mut out, context.as_str());
                out.push(' ');
                extend_str(&mut out, pane_name.as_str());
                out.push(' ');
                extend_str(&mut out, tab.as_str());
                out.push(' ');
                extend_str(&mut out, workspace.as_str());
            },
        }
        proof {
            let v = self.deep_view();
            assert(out@ =~= search_text_of(v));
        }
        string_of(out.as_slice())
    }
}

/// What to focus when the user selects a row and exits.
#[derive(Debug, Clone)]
pub enum FocusTarget {
    Workspace(String),
    Tab(String),
    Pane(String),
}

/// The mathematical value of a [`FocusTarget`].
pub enum FocusView {
    Workspace(Seq<char>),
    Tab(Seq<char>),
    Pane(Seq<char>),
}

impl DeepView for FocusTarget {
    type V = FocusView;

    open spec fn deep_view(&self) -> FocusView {
        match self {
            FocusTarget::Workspace(id) => FocusView::Workspace(id@),
            FocusTarget::Tab(id) => FocusView::Tab(id@),
            FocusTarget::Pane(id) => FocusView::Pane(id@),
        }
    }
}

/// The result of handling a key.
#[derive(Debug, PartialEq, Eq, Structural)]
pub enum KeyAction {
    /// Continue the event loop.
    Continue,
    /// Exit without focusing anything (Esc, Ctrl+C).
    ExitDismiss,
    /// Exit and focus the selected row (Enter).
    ExitSelect,
}

/// Logical actions that can be bound to keys.
#[derive(Debug, Clone, Copy, PartialEq, Eq, Structural)]
pub enum Action {
    NextCategory,
    PreviousCategory,
    MoveUp,
    MoveDown,
    Select,
    Dismiss,
    ForceQuit,
    Backspace,
}


// ── Keys ──

/// The keys the navigator tells apart.
#[derive(Debug, Clone, Copy, PartialEq, Eq, Structural)]
pub enum KeyCode {
    Char(char),
    Tab,
    /// Shift+Tab.
    BackTab,
    Up,
    Down,
    Enter,
    Esc,
    Backspace,
    /// Any other key (function keys, arrows left/right, ...).
    Other,
}

/// The modifier keys held with a key.
#[derive(Debug, Clone, Copy, PartialEq, Eq, Structural)]
pub struct KeyModifiers {
    pub control: bool,
    pub shift: bool,
    pub alt: bool,
    /// Any other modifier (Super, Hyper, Meta).
    pub extra: bool,
}

impl KeyModifiers {
    /// No modifier held.
    pub open spec fn none_spec() -> KeyModifiers {
        KeyModifiers { control: false, shift: false, alt: false, extra: false }
    }

    /// No modifier held.
    pub fn none() -> (res: KeyModifiers)
        ensures
            res == Self::none_spec(),
    {
        KeyModifiers { control: false, shift: false, alt: false, extra: false }
    }
}

/// A key press: a key and the modifiers held with it.
#[derive(Debug, Clone, Copy, PartialEq, Eq, Structural)]
pub struct KeyPress {
    pub code: KeyCode,
    pub modifiers: KeyModifiers,
}

/// A parsed key combination like `C-S-n` (Ctrl+Shift+n) or `Tab`.
#[derive(Debug, Clone, Copy, PartialEq, Eq, Structural)]
pub struct KeyBinding {
    pub code: KeyCode,
    pub modifiers: KeyModifiers,
}

/// Whether `s` starts with the two characters `a`, `b`.
pub open spec fn starts2(s: Seq<char>, a: char, b: char) -> bool {
    s.len() >= 2 && s[0] == a && s[1] == b
}

/// Strips the modifier prefixes `C-` (Control), `S-` (Shift) and `M-` or
/// `A-` (Alt) from the front of `s`, adding each to `m`.
pub open spec fn parse_mods(s: Seq<char>, m: KeyModifiers) -> (Seq<char>, KeyModifiers)
    decreases s.len(),
{
    if starts2(s, 'C', '-') {
        parse_mods(s.skip(2), KeyModifiers { control: true, ..m })
    } else if starts2(s, 'S', '-') {
        parse_mods(s.skip(2), KeyModifiers { shift: true, ..m })
    } else if starts2(s, 'M', '-') || starts2(s, 'A', '-') {
        parse_mods(s.skip(2), KeyModifiers { alt: true, ..m })
    } else {
        (s, m)
    }
}

/// The key a key name stands for (`Tab` with Shift is `BackTab`); a single
/// ASCII character stands for itself.
pub open spec fn key_named(name: Seq<char>, m: KeyModifiers) -> Option<KeyCode> {
    if name == "Tab"@ {
        Some(if m.shift { KeyCode::BackTab } else { KeyCode::Tab })
    } else if name == "BackTab"@ {
        Some(KeyCode::BackTab)
    } else if name == "Up"@ {
        Some(KeyCode::Up)
    } else if name == "Down"@ {
        Some(KeyCode::Down)
    } else if name == "Enter"@ {
        Some(KeyCode::Enter)
    } else if name == "Esc"@ {
        Some(KeyCode::Esc)
    } else if name == "Backspace"@ {
        Some(KeyCode::Backspace)
    } else if name == "Space"@ {
        Some(KeyCode::Char(' '))
    } else if name.len() == 1 && (name[0] as u32) < 0x80 {
        Some(KeyCode::Char(name[0]))
    } else {
        None
    }
}

/// The key combination a binding string names.
pub open spec fn binding_of(s: Seq<char>) -> Option<KeyBinding> {
    let (rest, m) = parse_mods(s, KeyModifiers::none_spec());
    match key_named(rest, m) {
        Some(code) => Some(KeyBinding { code, modifiers: m }),
        None => None,
    }
}

impl KeyBinding {
    /// Parses a key combination such as `C-p`, `S-Tab`, `M-x` or `Enter`;
    /// an unknown key name is an error naming the input.
    pub fn parse(s: &str) -> (res: Result<KeyBinding, String>)
        ensures
            match res {
                Ok(b) => binding_of(s@) == Some(b),
                Err(e) => binding_of(s@) is None && e@ == "Unknown key: "@ + s@,
            },
    {
        let c = chars_of(s);
        let mut m = KeyModifiers::none();
        let mut i: usize = 0;
        assert(c@.skip(0) =~= c@);
        while c.len() - i >= 2 && c[i + 1] == '-' && (c[i] == 'C' || c[i] == 'S' || c[i] == 'M'
            || c[i] == 'A')
            invariant
                i <= c.len(),
                c@ == s@,
                binding_of(s@) == ({
                    let (rest, mm) = parse_mods(c@.skip(i as int), m);
                    match key_named(rest, mm) {
                        Some(code) => Some(KeyBinding { code, modifiers: mm }),
                        None => None,
                    }
                }),
            decreases c.len() - i,
        {
            proof {
                assert(c@.skip(i as int).skip(2) =~= c@.skip(i + 2));
            }
            if c[i] == 'C' {
                m = KeyModifiers { control: true, ..m };
            } else if c[i] == 'S' {
                m = KeyModifiers { shift: true, ..m };
            } else {
                m = KeyModifiers { alt: true, ..m };
            }
            i = i + 2;
        }
        let rest = crate::text::sub_chars(c.as_slice(), i, c.len());
        assert(rest@ =~= c@.skip(i as int));
        let r = rest.as_slice();
        let code = if crate::text::eq_str(r, "Tab") {
            Some(
                if m.shift {
                    KeyCode::BackTab
                } else {
                    KeyCode::Tab
                },
            )
        } else if crate::text::eq_str(r, "BackTab") {
            Some(KeyCode::BackTab)
        } else if crate::text::eq_str(r, "Up") {
            Some(KeyCode::Up)
        } else if crate::text::eq_str(r, "Down") {
            Some(KeyCode::Down)
        } else if crate::text::eq_str(r, "Enter") {
            Some(KeyCode::Enter)
        } else if crate::text::eq_str(r, "Esc") {
            Some(KeyCode::Esc)
        } else if crate::text::eq_str(r, "Backspace") {
            Some(KeyCode::Backspace)
        } else if crate::text::eq_str(r, "Space") {
            Some(KeyCode::Char(' '))
        } else if r.len() == 1 && (r[0] as u32) < 0x80 {
            Some(KeyCode::Char(r[0]))
        } else {
            None
        };
        match code {
            Some(code) => Ok(KeyBinding { code, modifiers: m }),
            None => {
                let mut msg: Vec<char> = Vec::new();
                extend_str(&mut msg, "Unknown key: ");
                extend_str(&mut msg, s);
                Err(string_of(msg.as_slice()))
            },
        }
    }
}

impl std::str::FromStr for KeyBinding {
    type Err = String;

    fn from_str(s: &str) -> (res: Result<Self, Self::Err>)
        ensures
            match res {
                Ok(b) => binding_of(s@) == Some(b),
                Err(e) => binding_of(s@) is None && e@ == "Unknown key: "@ + s@,
            },
    {
        KeyBinding::parse(s)
    }
}


/// Configurable keybindings: each action accepts several key strings.
#[derive(Debug, Clone)]
pub struct Keybindings {
    pub next_category: Vec<String>,
    pub previous_category: Vec<String>,
    pub move_up: Vec<String>,
    pub move_down: Vec<String>,
    pub select: Vec<String>,
    pub dismiss: Vec<String>,
    pub force_quit: Vec<String>,
    pub backspace: Vec<String>,
}

/// Default keys for the next category.
fn default_next_category() -> (res: Vec<String>)
    ensures
        res.deep_view() == seq!["Tab"@],
{
    let mut v: Vec<String> = Vec::new();
    v.push("Tab".to_owned());
    assert(v.deep_view() =~= seq!["Tab"@]);
    v
}

/// Default keys for the previous category.
fn default_previous_category() -> (res: Vec<String>)
    ensures
        res.deep_view() == seq!["S-Tab"@],
{
    let mut v: Vec<String> = Vec::new();
    v.push("S-Tab".to_owned());
    assert(v.deep_view() =~= seq!["S-Tab"@]);
    v
}

/// Default keys for moving the selection up.
fn default_move_up() -> (res: Vec<String>)
    ensures
        res.deep_view() == seq!["Up"@, "C-p"@],
{
    let mut v: Vec<String> = Vec::new();
    v.push("Up".to_owned());
    v.push("C-p".to_owned());
    assert(v.deep_view() =~= seq!["Up"@, "C-p"@]);
    v
}

/// Default keys for moving the selection down.
fn default_move_down() -> (res: Vec<String>)
    ensures
        res.deep_view() == seq!["Down"@, "C-n"@],
{
    let mut v: Vec<String> = Vec::new();
    v.push("Down".to_owned());
    v.push("C-n".to_owned());
    assert(v.deep_view() =~= seq!["Down"@, "C-n"@]);
    v
}

/// Default keys for selecting.
fn default_select() -> (res: Vec<String>)
    ensures
        res.deep_view() == seq!["Enter"@],
{
    let mut v: Vec<String> = Vec::new();
    v.push("Enter".to_owned());
    assert(v.deep_view() =~= seq!["Enter"@]);
    v
}

/// Default keys for dismissing.
fn default_dismiss() -> (res: Vec<String>)
    ensures
        res.deep_view() == seq!["Esc"@],
{
    let mut v: Vec<String> = Vec::new();
    v.push("Esc".to_owned());
    assert(v.deep_view() =~= seq!["Esc"@]);
    v
}

/// Default keys for quitting.
fn default_force_quit() -> (res: Vec<String>)
    ensures
        res.deep_view() == seq!["C-c"@],
{
    let mut v: Vec<String> = Vec::new();
    v.push("C-c".to_owned());
    assert(v.deep_view() =~= seq!["C-c"@]);
    v
}

/// Default keys for deleting a search character.
fn default_backspace() -> (res: Vec<String>)
    ensures
        res.deep_view() == seq!["Backspace"@],
{
    let mut v: Vec<String> = Vec::new();
    v.push("Backspace".to_owned());
    assert(v.deep_view() =~= seq!["Backspace"@]);
    v
}

/// The default keybindings.
pub open spec fn is_default_keybindings(k: Keybindings) -> bool {
    &&& k.next_category.deep_view() == seq!["Tab"@]
    &&& k.previous_category.deep_view() == seq!["S-Tab"@]
    &&& k.move_up.deep_view() == seq!["Up"@, "C-p"@]
    &&& k.move_down.deep_view() == seq!["Down"@, "C-n"@]
    &&& k.select.deep_view() == seq!["Enter"@]
    &&& k.dismiss.deep_view() == seq!["Esc"@]
    &&& k.force_quit.deep_view() == seq!["C-c"@]
    &&& k.backspace.deep_view() == seq!["Backspace"@]
}

impl Default for Keybindings {
    fn default() -> (res: Self)
        ensures
            is_default_keybindings(res),
    {
        Keybindings {
            next_category: default_next_category(),
            previous_category: default_previous_category(),
            move_up: default_move_up(),
            move_down: default_move_down(),
            select: default_select(),
            dismiss: default_dismiss(),
            force_quit: default_force_quit(),
            backspace: default_backspace(),
        }
    }
}

/// Whether some key string of `list` names the combination `b`.
pub open spec fn list_binds(list: Seq<Seq<char>>, b: KeyBinding) -> bool {
    exists|i: int| 0 <= i < list.len() && binding_of(#[trigger] list[i]) == Some(b)
}

/// The action bound to the combination `b`: the first of next category,
/// previous category, up, down, select, dismiss, force quit, backspace
/// whose key strings name it.
pub open spec fn action_of(k: Keybindings, b: KeyBinding) -> Option<Action> {
    if list_binds(k.next_category.deep_view(), b) {
        Some(Action::NextCategory)
    } else if list_binds(k.previous_category.deep_view(), b) {
        Some(Action::PreviousCategory)
    } else if list_binds(k.move_up.deep_view(), b) {
        Some(Action::MoveUp)
    } else if list_binds(k.move_down.deep_view(), b) {
        Some(Action::MoveDown)
    } else if list_binds(k.select.deep_view(), b) {
        Some(Action::Select)
    } else if list_binds(k.dismiss.deep_view(), b) {
        Some(Action::Dismiss)
    } else if list_binds(k.force_quit.deep_view(), b) {
        Some(Action::ForceQuit)
    } else if list_binds(k.backspace.deep_view(), b) {
        Some(Action::Backspace)
    } else {
        None
    }
}

fn any_binds(list: &Vec<String>, b: &KeyBinding) -> (res: bool)
    ensures
        res == list_binds(list.deep_view(), *b),
{
    let mut i: usize = 0;
    while i < list.len()
        invariant
            i <= list.len(),
            forall|j: int| 0 <= j < i ==> binding_of(#[trigger] list.deep_view()[j]) != Some(*b),
        decreases list.len() - i,
    {
        assert(list.deep_view()[i as int] == list@[i as int]@);
        match KeyBinding::parse(list[i].as_str()) {
            Ok(parsed) => {
                if parsed == *b {
                    return true;
                }
            },
            Err(_) => {},
        }
        i = i + 1;
    }
    false
}

impl Keybindings {
    /// The action a key press triggers, or `None` when no binding matches.
    pub fn action_for(&self, key: &KeyPress) -> (res: Option<Action>)
        ensures
            res == action_of(*self, KeyBinding { code: key.code, modifiers: key.modifiers }),
    {
        let b = KeyBinding { code: key.code, modifiers: key.modifiers };
        if any_binds(&self.next_category, &b) {
            Some(Action::NextCategory)
        } else if any_binds(&self.previous_category, &b) {
            Some(Action::PreviousCategory)
        } else if any_binds(&self.move_up, &b) {
            Some(Action::MoveUp)
        } else if any_binds(&self.move_down, &b) {
            Some(Action::MoveDown)
        } else if any_binds(&self.select, &b) {
            Some(Action::Select)
        } else if any_binds(&self.dismiss, &b) {
            Some(Action::Dismiss)
        } else if any_binds(&self.force_quit, &b) {
            Some(Action::ForceQuit)
        } else if any_binds(&self.backspace, &b) {
            Some(Action::Backspace)
        } else {
            None
        }
    }
}

/// Global state of the navigator.
pub struct AppState {
    /// Configurable keybindings.
    pub keybindings: Keybindings,
    /// Category tabs shown in the header, in display order. Never empty.
    pub categories: Vec<CategoryTab>,
    /// All navigation nodes.
    pub nodes: Vec<NavigationNode>,
    /// The selected category tab.
    pub current_category: CategoryTab,
    /// The search input.
    pub search_query: String,
    /// The highlighted row.
    pub selected_index: usize,
    /// The active-only filter (Ctrl+E): only rows whose agent is blocked
    /// or done are listed.
    pub active_only: bool,
    /// Animation tick for the spinner (one per rendered frame).
    pub spinner_tick: u32,
    /// Herdr theme name (e.g. "tokyonight-day"), from the plugin context.
    pub theme_name: Option<String>,
    /// Key of the inputs the cached list was built from.
    pub cache_key: Option<u64>,
    /// The cached display list (already searched).
    pub cached_displayed: std::rc::Rc<Vec<DisplayItem>>,
    /// Rows before search filtering, shown in the status count.
    pub cached_total: usize,
}

} // verus!
