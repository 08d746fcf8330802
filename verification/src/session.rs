//! The decisions of a navigator run: which entities count as current,
//! which focus events a `track` call records, and how the last category is
//! kept between runs. Reading the environment and files, and talking to
//! Herdr, are the caller's part.

use vstd::prelude::*;
use crate::cli::{opt_chars, start_category_of, Cli};
use crate::models::{
    AppState, CategoryTab, DisplayItem, NavigationNode, NodeView, default_categories,
    is_default_keybindings, label_of,
};
use crate::strmap::StrMap;
use crate::text::{chars_of, is_ws, str_eq, string_of, trim, trim_chars, trim_end, trim_start};
use crate::tracker::{build_timestamp_maps, ts_map_of, MruEntry, MruKind};

verus! {

// ── Herdr's JSON payloads ──

/// Whether serde_json reads `text` as a JSON document.
pub uninterp spec fn json_parses(text: Seq<char>) -> bool;

/// What serde_json finds at JSON pointer `pointer` in the document `text`:
/// `None` where the text is no JSON or nothing is there, `Some(Some(s))` for
/// a string `s`, `Some(None)` for any other value.
pub uninterp spec fn json_field_at(text: Seq<char>, pointer: Seq<char>) -> Option<Option<Seq<char>>>;

/// Parses `text` with `serde_json::from_str` into a `serde_json::Value`
/// and tells whether that succeeded. The result is `json_parses` of the
/// text; nothing more is stated of serde_json's grammar.
#[verifier::external_body]
fn json_is_valid(text: &str) -> (res: bool)
    ensures
        res == json_parses(text@),
{
    serde_json::from_str::<serde_json::Value>(text).is_ok()
}

/// Parses `text` with `serde_json::from_str` into a `serde_json::Value`,
/// looks `pointer` up with `Value::pointer` and, where something is there,
/// takes it as a string with `Value::as_str`. The result is
/// `json_field_at` of the text and the pointer.
#[verifier::external_body]
fn json_field(text: &str, pointer: &str) -> (res: Option<Option<String>>)
    ensures
        res.deep_view() == json_field_at(text@, pointer@),
{
    serde_json::from_str::<serde_json::Value>(text).ok()?.pointer(pointer).map(|v| v.as_str().map(String::from))
}

/// A field that is present and a string.
pub open spec fn string_value(f: Option<Option<Seq<char>>>) -> Option<Seq<char>> {
    match f {
        Some(Some(s)) => Some(s),
        _ => None,
    }
}

fn string_of_field(f: Option<Option<String>>) -> (res: Option<String>)
    ensures
        res.deep_view() == string_value(f.deep_view()),
{
    match f {
        Some(Some(s)) => Some(s),
        _ => None,
    }
}

// ── Active context ──

/// The fields of Herdr's plugin context (`HERDR_PLUGIN_CONTEXT_JSON`) the
/// navigator reads. The outer `Option` tells whether the key is present,
/// the inner whether its value is a string.
#[derive(Debug, Clone)]
pub struct PluginContext {
    pub focused_workspace_id: Option<Option<String>>,
    pub workspace_id: Option<Option<String>>,
    pub focused_pane_id: Option<Option<String>>,
    pub theme_name: Option<Option<String>>,
}

/// The currently focused entities, each excluded from its own category, and
/// the theme.
#[derive(Debug, Clone)]
pub struct ActiveContext {
    pub workspace_id: Option<String>,
    pub pane_id: Option<String>,
    pub tab_id: Option<String>,
    pub self_pane_id: Option<String>,
    pub theme_name: Option<String>,
}

/// The mathematical value of an [`ActiveContext`].
pub struct ContextView {
    pub workspace_id: Option<Seq<char>>,
    pub pane_id: Option<Seq<char>>,
    pub tab_id: Option<Seq<char>>,
    pub self_pane_id: Option<Seq<char>>,
    pub theme_name: Option<Seq<char>>,
}

impl DeepView for ActiveContext {
    type V = ContextView;

    open spec fn deep_view(&self) -> ContextView {
        ContextView {
            workspace_id: self.workspace_id.deep_view(),
            pane_id: self.pane_id.deep_view(),
            tab_id: self.tab_id.deep_view(),
            self_pane_id: self.self_pane_id.deep_view(),
            theme_name: self.theme_name.deep_view(),
        }
    }
}

/// A present string field's value; an absent or non-string one gives none.
pub open spec fn field_str(f: Option<Option<String>>) -> Option<Seq<char>> {
    match f {
        Some(Some(s)) => Some(s@),
        _ => None,
    }
}

/// The tab of the first node showing pane `pane`, if any.
pub open spec fn tab_of_pane(ns: Seq<NodeView>, pane: Seq<char>) -> Option<Seq<char>>
    decreases ns.len(),
{
    if ns.len() == 0 {
        None
    } else if ns[0].pane_id == pane {
        Some(ns[0].tab_id)
    } else {
        tab_of_pane(ns.drop_first(), pane)
    }
}

/// The active context for a plugin context (none when it was not given or
/// could not be read): the focused workspace (`focused_workspace_id`, or
/// when that key is absent `workspace_id`), the focused pane, the tab of the
/// first node showing that pane, the navigator's own pane, and the theme.
pub open spec fn active_context(ns: Seq<NodeView>, own_pane: Option<Seq<char>>, ctx: Option<PluginContext>) -> ContextView {
    match ctx {
        None => ContextView {
            workspace_id: None,
            pane_id: None,
            tab_id: None,
            self_pane_id: own_pane,
            theme_name: None,
        },
        Some(c) => {
            let pane_id = field_str(c.focused_pane_id);
            ContextView {
                workspace_id: match c.focused_workspace_id {
                    Some(f) => field_str(Some(f)),
                    None => field_str(c.workspace_id),
                },
                pane_id,
                tab_id: match pane_id {
                    Some(p) => tab_of_pane(ns, p),
                    None => None,
                },
                self_pane_id: own_pane,
                theme_name: field_str(c.theme_name),
            }
        },
    }
}

fn field_string(f: &Option<Option<String>>) -> (res: Option<String>)
    ensures
        res.deep_view() == field_str(*f),
{
    match f {
        Some(Some(s)) => Some(s.clone()),
        _ => None,
    }
}

fn find_tab_of_pane(nodes: &[NavigationNode], pane: &str) -> (res: Option<String>)
    ensures
        res.deep_view() == tab_of_pane(nodes.deep_view(), pane@),
{
    let ghost ns = nodes.deep_view();
    let mut i: usize = 0;
    assert(ns.skip(0) =~= ns);
    while i < nodes.len()
        invariant
            i <= nodes@.len(),
            ns == nodes.deep_view(),
            tab_of_pane(ns, pane@) == tab_of_pane(ns.skip(i as int), pane@),
        decreases nodes@.len() - i,
    {
        proof {
            assert(ns.skip(i as int)[0] == nodes@[i as int].deep_view());
            assert(ns.skip(i as int).drop_first() =~= ns.skip(i + 1));
        }
        if str_eq(nodes[i].pane_id.as_str(), pane) {
            return Some(nodes[i].tab_id.clone());
        }
        i = i + 1;
    }
    None
}

/// Derives the currently focused workspace, pane and tab from Herdr's
/// plugin context, with `ipc_active_pane_id`, the navigator's own overlay
/// pane (the pane Herdr lists as focused).
pub fn derive_active_context(
    nodes: &[NavigationNode],
    ipc_active_pane_id: Option<String>,
    context: Option<PluginContext>,
) -> (res: ActiveContext)
    ensures
        res.deep_view() == active_context(nodes.deep_view(), ipc_active_pane_id.deep_view(), context),
{
    match context {
        None => ActiveContext {
            workspace_id: None,
            pane_id: None,
            tab_id: None,
            self_pane_id: ipc_active_pane_id,
            theme_name: None,
        },
        Some(c) => {
            let workspace_id = match &c.focused_workspace_id {
                Some(f) => match f {
                    Some(s) => Some(s.clone()),
                    None => None,
                },
                None => field_string(&c.workspace_id),
            };
            let pane_id = field_string(&c.focused_pane_id);
            let tab_id = match &pane_id {
                Some(p) => find_tab_of_pane(nodes, p.as_str()),
                None => None,
            };
            ActiveContext {
                workspace_id,
                pane_id,
                tab_id,
                self_pane_id: ipc_active_pane_id,
                theme_name: field_string(&c.theme_name),
            }
        },
    }
}

// ── Focus records ──

/// One focus event to record: the entity, its workspace and names.
#[derive(Debug, Clone)]
pub struct FocusRecord {
    pub kind: MruKind,
    pub id: String,
    pub workspace_id: String,
    pub name: Option<String>,
    pub workspace_name: Option<String>,
}

/// The mathematical value of a [`FocusRecord`].
pub struct RecordView {
    pub kind: MruKind,
    pub id: Seq<char>,
    pub workspace_id: Seq<char>,
    pub name: Option<Seq<char>>,
    pub workspace_name: Option<Seq<char>>,
}

impl DeepView for FocusRecord {
    type V = RecordView;

    open spec fn deep_view(&self) -> RecordView {
        RecordView {
            kind: self.kind,
            id: self.id@,
            workspace_id: self.workspace_id@,
            name: self.name.deep_view(),
            workspace_name: self.workspace_name.deep_view(),
        }
    }
}

/// The events that capture a focus state: the pane, its tab and its
/// workspace, in that order, each with its name and the workspace's name.
pub open spec fn focus_state_records(
    pane_id: Seq<char>,
    tab_id: Seq<char>,
    workspace_id: Seq<char>,
    pane_name: Option<Seq<char>>,
    tab_name: Option<Seq<char>>,
    workspace_name: Option<Seq<char>>,
) -> Seq<RecordView> {
    seq![
        RecordView { kind: MruKind::Pane, id: pane_id, workspace_id, name: pane_name, workspace_name },
        RecordView { kind: MruKind::Tab, id: tab_id, workspace_id, name: tab_name, workspace_name },
        RecordView {
            kind: MruKind::Workspace,
            id: workspace_id,
            workspace_id,
            name: workspace_name,
            workspace_name: None,
        },
    ]
}

/// The views of records.
pub open spec fn records_view(v: Seq<FocusRecord>) -> Seq<RecordView> {
    v.map_values(|r: FocusRecord| r.deep_view())
}

fn clone_opt(o: &Option<String>) -> (res: Option<String>)
    ensures
        res.deep_view() == o.deep_view(),
{
    match o {
        Some(s) => Some(s.clone()),
        None => None,
    }
}

/// The records that capture the focused pane, its tab and its workspace.
pub fn focus_records(
    pane_id: &str,
    tab_id: &str,
    workspace_id: &str,
    pane_name: Option<String>,
    tab_name: Option<String>,
    workspace_name: Option<String>,
) -> (res: Vec<FocusRecord>)
    ensures
        records_view(res@) == focus_state_records(
            pane_id@,
            tab_id@,
            workspace_id@,
            pane_name.deep_view(),
            tab_name.deep_view(),
            workspace_name.deep_view(),
        ),
{
    let mut v: Vec<FocusRecord> = Vec::new();
    v.push(
        FocusRecord {
            kind: MruKind::Pane,
            id: pane_id.to_owned(),
            workspace_id: workspace_id.to_owned(),
            name: pane_name,
            workspace_name: clone_opt(&workspace_name),
        },
    );
    v.push(
        FocusRecord {
            kind: MruKind::Tab,
            id: tab_id.to_owned(),
            workspace_id: workspace_id.to_owned(),
            name: tab_name,
            workspace_name: clone_opt(&workspace_name),
        },
    );
    v.push(
        FocusRecord {
            kind: MruKind::Workspace,
            id: workspace_id.to_owned(),
            workspace_id: workspace_id.to_owned(),
            name: workspace_name,
            workspace_name: None,
        },
    );
    assert(records_view(v@) =~= focus_state_records(
        pane_id@,
        tab_id@,
        workspace_id@,
        pane_name.deep_view(),
        tab_name.deep_view(),
        workspace_name.deep_view(),
    ));
    v
}

/// A label as a name: none when empty.
pub open spec fn nonempty(s: Seq<char>) -> Option<Seq<char>> {
    if s.len() == 0 {
        None
    } else {
        Some(s)
    }
}

/// The first title among the nodes showing pane `pane`, if any has one.
pub open spec fn pane_title_in(ns: Seq<NodeView>, pane: Seq<char>) -> Option<Seq<char>>
    decreases ns.len(),
{
    if ns.len() == 0 {
        None
    } else if ns[0].pane_id == pane && ns[0].pane_name is Some {
        ns[0].pane_name
    } else {
        pane_title_in(ns.drop_first(), pane)
    }
}

/// The name of the first node in tab `tab`, if any.
pub open spec fn tab_name_in_nodes(ns: Seq<NodeView>, tab: Seq<char>) -> Option<Seq<char>>
    decreases ns.len(),
{
    if ns.len() == 0 {
        None
    } else if ns[0].tab_id == tab {
        Some(ns[0].tab_name)
    } else {
        tab_name_in_nodes(ns.drop_first(), tab)
    }
}

/// The workspace name of the first node in workspace `ws`, if any.
pub open spec fn ws_name_in_nodes(ns: Seq<NodeView>, ws: Seq<char>) -> Option<Seq<char>>
    decreases ns.len(),
{
    if ns.len() == 0 {
        None
    } else if ns[0].workspace_id == ws {
        Some(ns[0].workspace_name)
    } else {
        ws_name_in_nodes(ns.drop_first(), ws)
    }
}

/// The records that capture the focus state when the navigator starts: the
/// focused pane (named by its label, or when that is empty by the first
/// title the nodes show for it), its tab and its workspace, named from the
/// nodes.
pub fn startup_records(
    nodes: &[NavigationNode],
    pane_id: &str,
    tab_id: &str,
    workspace_id: &str,
    label: &str,
) -> (res: Vec<FocusRecord>)
    ensures
        records_view(res@) == focus_state_records(
            pane_id@,
            tab_id@,
            workspace_id@,
            match nonempty(label@) {
                Some(l) => Some(l),
                None => pane_title_in(nodes.deep_view(), pane_id@),
            },
            tab_name_in_nodes(nodes.deep_view(), tab_id@),
            ws_name_in_nodes(nodes.deep_view(), workspace_id@),
        ),
{
    let ghost ns = nodes.deep_view();
    let mut pane_name: Option<String> = if label.is_empty() {
        None
    } else {
        Some(label.to_owned())
    };
    let mut tab_name: Option<String> = None;
    let mut ws_name: Option<String> = None;
    let ghost pane_goal = match nonempty(label@) {
        Some(l) => Some(l),
        None => pane_title_in(ns, pane_id@),
    };
    let mut i: usize = 0;
    assert(ns.skip(0) =~= ns);
    while i < nodes.len()
        invariant
            i <= nodes@.len(),
            ns == nodes.deep_view(),
            pane_name is Some ==> pane_name.deep_view() == pane_goal,
            pane_name is None ==> pane_goal == pane_title_in(ns.skip(i as int), pane_id@),
            tab_name is Some ==> tab_name.deep_view() == tab_name_in_nodes(ns, tab_id@),
            tab_name is None ==> tab_name_in_nodes(ns, tab_id@) == tab_name_in_nodes(ns.skip(i as int), tab_id@),
            ws_name is Some ==> ws_name.deep_view() == ws_name_in_nodes(ns, workspace_id@),
            ws_name is None ==> ws_name_in_nodes(ns, workspace_id@) == ws_name_in_nodes(ns.skip(i as int), workspace_id@),
        decreases nodes@.len() - i,
    {
        let n = &nodes[i];
        proof {
            assert(ns.skip(i as int)[0] == n.deep_view());
            assert(ns.skip(i as int).drop_first() =~= ns.skip(i + 1));
        }
        if pane_name.is_none() && str_eq(n.pane_id.as_str(), pane_id) {
            pane_name = clone_opt(&n.pane_name);
        }
        if tab_name.is_none() && str_eq(n.tab_id.as_str(), tab_id) {
            tab_name = Some(n.tab_name.clone());
        }
        if ws_name.is_none() && str_eq(n.workspace_id.as_str(), workspace_id) {
            ws_name = Some(n.workspace_name.clone());
        }
        i = i + 1;
    }
    proof {
        assert(ns.skip(nodes@.len() as int) =~= Seq::<NodeView>::empty());
    }
    focus_records(pane_id, tab_id, workspace_id, pane_name, tab_name, ws_name)
}

// ── Track events ──

/// The fields of a plugin event (`HERDR_PLUGIN_EVENT_JSON`) the `track`
/// command reads: the event name when it is a string, whether the event has
/// data, and the data's ids that are strings.
#[derive(Debug, Clone)]
pub struct TrackEvent {
    pub event: Option<String>,
    pub has_data: bool,
    pub workspace_id: Option<String>,
    pub pane_id: Option<String>,
    pub tab_id: Option<String>,
}

/// The mathematical value of a [`TrackEvent`].
pub struct TrackView {
    pub event: Option<Seq<char>>,
    pub has_data: bool,
    pub workspace_id: Option<Seq<char>>,
    pub pane_id: Option<Seq<char>>,
    pub tab_id: Option<Seq<char>>,
}

impl DeepView for TrackEvent {
    type V = TrackView;

    open spec fn deep_view(&self) -> TrackView {
        TrackView {
            event: self.event.deep_view(),
            has_data: self.has_data,
            workspace_id: self.workspace_id.deep_view(),
            pane_id: self.pane_id.deep_view(),
            tab_id: self.tab_id.deep_view(),
        }
    }
}

/// What a `track` call records for an event: `Ok(Some((kind, id,
/// workspace)))` for a workspace, pane or tab focus; `Ok(None)` for another
/// event (ignored); the error for a malformed one.
pub open spec fn track_outcome(e: TrackView) -> Result<Option<(MruKind, Seq<char>, Seq<char>)>, Seq<char>> {
    match e.event {
        None => Err("HERDR_PLUGIN_EVENT_JSON missing 'event' field"@),
        Some(name) => if !e.has_data {
            Err("HERDR_PLUGIN_EVENT_JSON missing 'data' field"@)
        } else if name == "workspace_focused"@ {
            match e.workspace_id {
                Some(ws) => Ok(Some((MruKind::Workspace, ws, ws))),
                None => Err("missing workspace_id in workspace.focused data"@),
            }
        } else if name == "pane_focused"@ {
            match (e.pane_id, e.workspace_id) {
                (Some(p), Some(ws)) => Ok(Some((MruKind::Pane, p, ws))),
                (None, _) => Err("missing pane_id in pane.focused data"@),
                (Some(_), None) => Err("missing workspace_id in pane.focused data"@),
            }
        } else if name == "tab_focused"@ {
            match (e.tab_id, e.workspace_id) {
                (Some(t), Some(ws)) => Ok(Some((MruKind::Tab, t, ws))),
                (None, _) => Err("missing tab_id in tab.focused data"@),
                (Some(_), None) => Err("missing workspace_id in tab.focused data"@),
            }
        } else {
            Ok(None)
        },
    }
}

fn lit(s: &str) -> (res: String)
    ensures
        res@ == s@,
{
    s.to_owned()
}

/// Decides what a `track` call records for a plugin event (see
/// [`track_outcome`]).
pub fn track_event(e: &TrackEvent) -> (res: Result<Option<(MruKind, String, String)>, String>)
    ensures
        match track_outcome(e.deep_view()) {
            Ok(Some((k, id, ws))) => res matches Ok(Some(r)) && r.0 == k && r.1@ == id && r.2@ == ws,
            Ok(None) => res matches Ok(None),
            Err(m) => res matches Err(r) && r@ == m,
        },
{
    let name = match &e.event {
        None => {
            return Err(lit("HERDR_PLUGIN_EVENT_JSON missing 'event' field"));
        },
        Some(n) => n,
    };
    if !e.has_data {
        return Err(lit("HERDR_PLUGIN_EVENT_JSON missing 'data' field"));
    }
    if str_eq(name.as_str(), "workspace_focused") {
        return match &e.workspace_id {
            Some(ws) => Ok(Some((MruKind::Workspace, ws.clone(), ws.clone()))),
            None => Err(lit("missing workspace_id in workspace.focused data")),
        };
    }
    if str_eq(name.as_str(), "pane_focused") {
        let p = match &e.pane_id {
            Some(p) => p,
            None => {
                return Err(lit("missing pane_id in pane.focused data"));
            },
        };
        return match &e.workspace_id {
            Some(ws) => Ok(Some((MruKind::Pane, p.clone(), ws.clone()))),
            None => Err(lit("missing workspace_id in pane.focused data")),
        };
    }
    if str_eq(name.as_str(), "tab_focused") {
        let t = match &e.tab_id {
            Some(t) => t,
            None => {
                return Err(lit("missing tab_id in tab.focused data"));
            },
        };
        return match &e.workspace_id {
            Some(ws) => Ok(Some((MruKind::Tab, t.clone(), ws.clone()))),
            None => Err(lit("missing workspace_id in tab.focused data")),
        };
    }
    Ok(None)
}

// ── The last category ──

/// A lowercase hexadecimal digit.
pub open spec fn hex_digit(d: u32) -> char {
    if d < 10 {
        (('0' as u32) + d) as char
    } else {
        (('a' as u32) + d - 10) as char
    }
}

/// How JSON writes one character of a string: `"` and `\` escaped with a
/// backslash, backspace, tab, line feed, form feed and carriage return as
/// `\b`, `\t`, `\n`, `\f`, `\r`, every other character below U+0020 as
/// `\u00` and two lowercase hex digits, everything else as it is.
pub open spec fn json_char(c: char) -> Seq<char> {
    let u = c as u32;
    if c == '"' {
        seq!['\\', '"']
    } else if c == '\\' {
        seq!['\\', '\\']
    } else if u == 0x08 {
        seq!['\\', 'b']
    } else if u == 0x09 {
        seq!['\\', 't']
    } else if u == 0x0A {
        seq!['\\', 'n']
    } else if u == 0x0C {
        seq!['\\', 'f']
    } else if u == 0x0D {
        seq!['\\', 'r']
    } else if u < 0x20 {
        seq!['\\', 'u', '0', '0', hex_digit(u / 16), hex_digit(u % 16)]
    } else {
        seq![c]
    }
}

/// The characters of a JSON string's body for `s`.
pub open spec fn json_escaped(s: Seq<char>) -> Seq<char>
    decreases s.len(),
{
    if s.len() == 0 {
        seq![]
    } else {
        json_escaped(s.drop_last()) + json_char(s.last())
    }
}

/// The JSON string literal of `s`.
pub open spec fn json_text(s: Seq<char>) -> Seq<char> {
    seq!['"'] + json_escaped(s) + seq!['"']
}

/// A string JSON writes without escapes: no quote, backslash or control
/// character below U+0020.
pub open spec fn plain_json(s: Seq<char>) -> bool {
    forall|i: int| 0 <= i < s.len() ==> #[trigger] s[i] != '"' && s[i] != '\\' && (s[i] as u32) >= 0x20
}

/// A plain string's JSON body is the string itself.
proof fn lemma_plain_escaped(s: Seq<char>)
    requires
        plain_json(s),
    ensures
        json_escaped(s) == s,
    decreases s.len(),
{
    if s.len() > 0 {
        let p = s.drop_last();
        assert forall|i: int| 0 <= i < p.len() implies #[trigger] p[i] != '"' && p[i] != '\\' && (p[i] as u32) >= 0x20 by {
            assert(p[i] == s[i]);
        }
        lemma_plain_escaped(p);
        let c = s.last();
        assert(s[s.len() - 1] == c);
        assert((c as u32) >= 0x20);
        assert(json_char(c) == seq![c]);
        assert(p + seq![c] =~= s);
    }
}

/// The JSON string literal of `s` by `serde_json::to_string`, which writes
/// a string through its escape table (`format_escaped_str`) between double
/// quotes and does not fail on a string.
#[verifier::external_body]
fn json_string(s: &str) -> (res: Option<String>)
    ensures
        res.deep_view() == Some(json_text(s@)),
{
    serde_json::to_string(s).ok()
}

/// The text the state file holds for a category: its label as a JSON
/// string.
pub fn category_state_text(cat: &CategoryTab) -> (res: Option<String>)
    ensures
        res.deep_view() == Some(json_text(label_of(*cat))),
        res.deep_view() == Some(quoted(label_of(*cat))),
{
    proof {
        lemma_labels_plain(*cat);
        lemma_plain_escaped(label_of(*cat));
    }
    json_string(cat.label())
}

/// `s` between double quotes.
pub open spec fn quoted(s: Seq<char>) -> Seq<char> {
    seq!['"'] + s + seq!['"']
}

/// The labels are written to JSON as they are.
proof fn lemma_labels_plain(cat: CategoryTab)
    ensures
        plain_json(label_of(cat)),
{
    reveal_strlit("Workspaces");
    reveal_strlit("Tabs");
    reveal_strlit("Agents");
    reveal_strlit("Panes");
    reveal_strlit("Others");
    reveal_strlit("All");
}

/// `s` without leading and trailing double quotes.
pub open spec fn trim_quotes(s: Seq<char>) -> Seq<char>
    decreases s.len(),
{
    if s.len() > 0 && s[0] == '"' {
        trim_quotes(s.drop_first())
    } else if s.len() > 0 && s.last() == '"' {
        trim_quotes(s.drop_last())
    } else {
        s
    }
}

/// The category whose label is `s`, if any.
pub open spec fn category_labelled(s: Seq<char>) -> Option<CategoryTab> {
    if s == label_of(CategoryTab::Workspaces) {
        Some(CategoryTab::Workspaces)
    } else if s == label_of(CategoryTab::Tabs) {
        Some(CategoryTab::Tabs)
    } else if s == label_of(CategoryTab::Agents) {
        Some(CategoryTab::Agents)
    } else if s == label_of(CategoryTab::Panes) {
        Some(CategoryTab::Panes)
    } else {
        None
    }
}

fn trim_quotes_chars(s: &[char]) -> (res: Vec<char>)
    ensures
        res@ == trim_quotes(s@),
{
    let mut i: usize = 0;
    let mut j: usize = s.len();
    assert(s@.subrange(0, s@.len() as int) =~= s@);
    while i < j && (s[i] == '"' || s[j - 1] == '"')
        invariant
            i <= j <= s@.len(),
            trim_quotes(s@) == trim_quotes(s@.subrange(i as int, j as int)),
        decreases j - i,
    {
        let ghost t = s@.subrange(i as int, j as int);
        if s[i] == '"' {
            assert(t.drop_first() =~= s@.subrange(i + 1, j as int));
            i = i + 1;
        } else {
            assert(t.drop_last() =~= s@.subrange(i as int, j - 1));
            j = j - 1;
        }
    }
    proof {
        let t = s@.subrange(i as int, j as int);
        if i < j {
            assert(t[0] == s@[i as int] && t.last() == s@[j - 1]);
        }
    }
    crate::text::sub_chars(s, i, j)
}

/// Each main category is the one its label names.
proof fn lemma_main_labels()
    ensures
        category_labelled(label_of(CategoryTab::Workspaces)) == Some(CategoryTab::Workspaces),
        category_labelled(label_of(CategoryTab::Tabs)) == Some(CategoryTab::Tabs),
        category_labelled(label_of(CategoryTab::Agents)) == Some(CategoryTab::Agents),
        category_labelled(label_of(CategoryTab::Panes)) == Some(CategoryTab::Panes),
{
    reveal_strlit("Workspaces");
    reveal_strlit("Tabs");
    reveal_strlit("Agents");
    reveal_strlit("Panes");
    assert(label_of(CategoryTab::Workspaces).len() == 10);
    assert(label_of(CategoryTab::Tabs).len() == 4);
    assert(label_of(CategoryTab::Agents).len() == 6);
    assert(label_of(CategoryTab::Panes).len() == 5);
}

/// A saved category reads back as itself: the state text written for one
/// of the four main categories (its label between double quotes) is read as
/// that category.
pub proof fn lemma_category_state_round_trip(cat: CategoryTab)
    requires
        default_categories().contains(cat),
    ensures
        category_labelled(trim_quotes(trim(quoted(label_of(cat))))) == Some(cat),
{
    reveal_strlit("Workspaces");
    reveal_strlit("Tabs");
    reveal_strlit("Agents");
    reveal_strlit("Panes");
    lemma_main_labels();
    let l = label_of(cat);
    let q = quoted(l);
    assert(cat == CategoryTab::Workspaces || cat == CategoryTab::Tabs || cat == CategoryTab::Agents
        || cat == CategoryTab::Panes) by {
        let k = choose|k: int| 0 <= k < default_categories().len() && default_categories()[k] == cat;
    }
    assert(l.len() > 0 && l[0] != '"' && l.last() != '"');
    assert(q[0] == '"' && q.last() == '"');
    assert(!is_ws(q[0]));
    assert(trim_start(q) == q);
    assert(!is_ws(q.last()));
    assert(trim_end(q) == q);
    assert(q.drop_first() =~= l + seq!['"']);
    let r = l + seq!['"'];
    assert(r[0] == l[0] && r.last() == '"');
    assert(r.drop_last() =~= l);
    assert(trim_quotes(l) == l);
    assert(trim_quotes(r) == trim_quotes(l));
    assert(trim_quotes(q) == trim_quotes(r));
    assert(trim(q) == q);
}

/// The last category saved in the state file text `data`: the text trimmed
/// of white space and double quotes, taken as one of the four main
/// categories' labels.
pub fn category_from_state(data: &str) -> (res: Option<CategoryTab>)
    ensures
        res == category_labelled(trim_quotes(trim(data@))),
{
    let raw = chars_of(data);
    let t = trim_chars(raw.as_slice());
    let label = trim_quotes_chars(t.as_slice());
    let s = string_of(label.as_slice());
    let all = CategoryTab::all();
    let mut i: usize = 0;
    while i < 4
        invariant
            i <= 4,
            all@ == default_categories(),
            s@ == trim_quotes(trim(data@)),
            forall|k: int| 0 <= k < i ==> s@ != label_of(#[trigger] all@[k]),
        decreases 4 - i,
    {
        if str_eq(s.as_str(), all[i].label()) {
            proof {
                lemma_main_labels();
            }
            return Some(all[i]);
        }
        i = i + 1;
    }
    proof {
        assert(s@ != label_of(all@[0]));
        assert(s@ != label_of(all@[1]));
        assert(s@ != label_of(all@[2]));
        assert(s@ != label_of(all@[3]));
    }
    None
}

// ── Session start ──

/// Everything the navigator starts with: its state, the per-level focus
/// timestamps, the current context, and whether Herdr is connected.
pub struct Session {
    pub state: AppState,
    pub pane_ts: StrMap<u64>,
    pub tab_ts: StrMap<u64>,
    pub ws_ts: StrMap<u64>,
    pub ctx: ActiveContext,
    pub connected: bool,
}

/// Starts a navigator run on what the caller fetched and loaded: the nodes,
/// the pane Herdr lists as focused (the navigator's own overlay pane),
/// whether the nodes came from Herdr, the recorded focus events, Herdr's
/// plugin context and the category remembered from the last run. The state
/// is a fresh one on `nodes`, with the context's theme, opening on the
/// category `--view` names, else the remembered one, else Workspaces.
pub fn open_session(
    cli: &Cli,
    nodes: Vec<NavigationNode>,
    focused_pane_id: Option<String>,
    connected: bool,
    entries: &[MruEntry],
    context: Option<PluginContext>,
    last: Option<CategoryTab>,
) -> (res: Session)
    ensures
        res.ctx.deep_view() == active_context(nodes.deep_view(), focused_pane_id.deep_view(), context),
        res.pane_ts@ == ts_map_of(entries.deep_view(), MruKind::Pane),
        res.tab_ts@ == ts_map_of(entries.deep_view(), MruKind::Tab),
        res.ws_ts@ == ts_map_of(entries.deep_view(), MruKind::Workspace),
        res.connected == connected,
        res.state.nodes@ == nodes@,
        res.state.theme_name.deep_view() == res.ctx.deep_view().theme_name,
        res.state.current_category == start_category_of(opt_chars(cli.view), last, CategoryTab::Workspaces),
        res.state.search_query@ == Seq::<char>::empty(),
        res.state.selected_index == 0,
        !res.state.active_only,
        res.state.spinner_tick == 0,
        res.state.cache_key is None,
        res.state.cached_displayed@ == Seq::<DisplayItem>::empty(),
        res.state.cached_total == 0,
        res.state.categories@ == default_categories(),
        is_default_keybindings(res.state.keybindings),
{
    let (pane_ts, tab_ts, ws_ts) = build_timestamp_maps(entries);
    let ctx = derive_active_context(nodes.as_slice(), focused_pane_id, context);
    let mut state = AppState::new(nodes);
    state.theme_name = match &ctx.theme_name {
        Some(t) => Some(t.clone()),
        None => None,
    };
    state.current_category = cli.start_category(last, state.current_category);
    Session { state, pane_ts, tab_ts, ws_ts, ctx, connected }
}

// ── Payloads from the environment ──

/// The event a plugin event payload (`HERDR_PLUGIN_EVENT_JSON`) describes:
/// its `event` name and the `workspace_id`, `pane_id` and `tab_id` of its
/// `data` where they are strings, and whether it has `data` at all.
pub open spec fn track_view_of(json: Seq<char>) -> TrackView {
    TrackView {
        event: string_value(json_field_at(json, "/event"@)),
        has_data: json_field_at(json, "/data"@) is Some,
        workspace_id: string_value(json_field_at(json, "/data/workspace_id"@)),
        pane_id: string_value(json_field_at(json, "/data/pane_id"@)),
        tab_id: string_value(json_field_at(json, "/data/tab_id"@)),
    }
}

/// What a `track` call records for a plugin event payload: an error where
/// it is no JSON, else as [`track_outcome`] decides for the event it
/// describes.
pub open spec fn track_outcome_of_json(json: Seq<char>) -> Result<Option<(MruKind, Seq<char>, Seq<char>)>, Seq<char>> {
    if !json_parses(json) {
        Err("Failed to parse HERDR_PLUGIN_EVENT_JSON"@)
    } else {
        track_outcome(track_view_of(json))
    }
}

/// The event a plugin event payload describes (see [`track_view_of`]).
pub fn plugin_event(json: &str) -> (res: TrackEvent)
    ensures
        res.deep_view() == track_view_of(json@),
{
    TrackEvent {
        event: string_of_field(json_field(json, "/event")),
        has_data: json_field(json, "/data").is_some(),
        workspace_id: string_of_field(json_field(json, "/data/workspace_id")),
        pane_id: string_of_field(json_field(json, "/data/pane_id")),
        tab_id: string_of_field(json_field(json, "/data/tab_id")),
    }
}

/// Decides what a `track` call records for the plugin event payload `json`
/// (see [`track_outcome_of_json`]).
pub fn track_event_from_json(json: &str) -> (res: Result<Option<(MruKind, String, String)>, String>)
    ensures
        match track_outcome_of_json(json@) {
            Ok(Some((k, id, ws))) => res matches Ok(Some(r)) && r.0 == k && r.1@ == id && r.2@ == ws,
            Ok(None) => res matches Ok(None),
            Err(m) => res matches Err(r) && r@ == m,
        },
{
    if !json_is_valid(json) {
        return Err(lit("Failed to parse HERDR_PLUGIN_EVENT_JSON"));
    }
    let event = plugin_event(json);
    track_event(&event)
}

/// Herdr's plugin context from its payload (`HERDR_PLUGIN_CONTEXT_JSON`):
/// `None` where it is no JSON; otherwise each key as absent, a string, or
/// another value.
pub fn plugin_context_from_json(json: &str) -> (res: Option<PluginContext>)
    ensures
        res is Some <==> json_parses(json@),
        res matches Some(c) ==> {
            &&& c.focused_workspace_id.deep_view() == json_field_at(json@, "/focused_workspace_id"@)
            &&& c.workspace_id.deep_view() == json_field_at(json@, "/workspace_id"@)
            &&& c.focused_pane_id.deep_view() == json_field_at(json@, "/focused_pane_id"@)
            &&& c.theme_name.deep_view() == json_field_at(json@, "/theme_name"@)
        },
{
    if !json_is_valid(json) {
        return None;
    }
    Some(
        PluginContext {
            focused_workspace_id: json_field(json, "/focused_workspace_id"),
            workspace_id: json_field(json, "/workspace_id"),
            focused_pane_id: json_field(json, "/focused_pane_id"),
            theme_name: json_field(json, "/theme_name"),
        },
    )
}

} // verus!
