//! Building the per-category display lists: filtering out the current
//! entity, grouping panes into workspaces and tabs, and ordering rows most
//! recently used first.

use std::collections::hash_map::DefaultHasher;
use std::hash::Hasher;
use nucleo_matcher::pattern::{CaseMatching, Normalization, Pattern};
use nucleo_matcher::{Config, Matcher, Utf32Str};
use vstd::prelude::*;
use vstd::std_specs::hash::DefaultHasherAdditionalSpecFns;
use crate::models::{
    AgentStatus, CategoryTab, DisplayItem, DisplayView, NavigationNode, NodeView, OtherSource,
    OthersView, PaneOthers, label_of, search_text_of,
    sort_key_of, ts_of,
};
use crate::order::{
    is_strict_order, lemma_insert_sorted_at, lemma_sort_by_multiset, lemma_sort_by_sorted, sort_by, sorted_by,
};
use crate::others::{
    command_is_editor, command_is_shell, editor_target, excerpt_of, excerpt_safe, try_content_excerpt, is_editor_name,
    is_prompt_title, is_shell_name, is_shell_prompt_title, parse_editor_target, program_name,
};
use crate::strmap::StrMap;
use crate::text::{
    byte_len, after_last, after_last_char, chars_lt, chars_of, decimal, decimal_chars, eq_chars, extend_chars, extend_str,
    lemma_lex_lt_irreflexive, lemma_lex_lt_transitive, lex_lt, str_eq, string_of, sub_chars,
};

verus! {

/// The lookup tables and exclusions a category list is built with.
///
/// Timestamp maps are kept separate per level so that a workspace focus does
/// not override tab recency and vice versa.
pub struct BuildOptions<'a> {
    pub pane_ts: &'a StrMap<u64>,
    pub tab_ts: &'a StrMap<u64>,
    pub ws_ts: &'a StrMap<u64>,
    pub active_workspace_id: Option<&'a str>,
    pub active_pane_id: Option<&'a str>,
    pub active_tab_id: Option<&'a str>,
    pub self_pane_id: Option<&'a str>,
    /// Pane runtime state for the Others tab (cmd/ssh/cwd).
    pub others: &'a StrMap<PaneOthers>,
}

/// The mathematical value of a [`BuildOptions`].
pub struct OptionsView {
    pub pane_ts: Map<Seq<char>, u64>,
    pub tab_ts: Map<Seq<char>, u64>,
    pub ws_ts: Map<Seq<char>, u64>,
    pub active_workspace_id: Option<Seq<char>>,
    pub active_pane_id: Option<Seq<char>>,
    pub active_tab_id: Option<Seq<char>>,
    pub self_pane_id: Option<Seq<char>>,
    pub others: Map<Seq<char>, PaneOthers>,
}

impl<'a> View for BuildOptions<'a> {
    type V = OptionsView;

    open spec fn view(&self) -> OptionsView {
        OptionsView {
            pane_ts: self.pane_ts@,
            tab_ts: self.tab_ts@,
            ws_ts: self.ws_ts@,
            active_workspace_id: self.active_workspace_id.deep_view(),
            active_pane_id: self.active_pane_id.deep_view(),
            active_tab_id: self.active_tab_id.deep_view(),
            self_pane_id: self.self_pane_id.deep_view(),
            others: self.others@,
        }
    }
}

// ── Timestamps ──

/// The timestamp recorded for `k`, or 0 when none is.
pub open spec fn ts_in(m: Map<Seq<char>, u64>, k: Seq<char>) -> u64 {
    if m.contains_key(k) {
        m[k]
    } else {
        0
    }
}

fn ts_lookup(m: &StrMap<u64>, k: &str) -> (res: u64)
    ensures
        res == ts_in(m@, k@),
{
    match m.get(k) {
        Some(v) => *v,
        None => 0,
    }
}

// ── MRU order ──

/// Row ordering by key: newer timestamp first, then the smaller sort key.
pub open spec fn key_before(ta: u64, ka: Seq<char>, tb: u64, kb: Seq<char>) -> bool {
    ta > tb || (ta == tb && lex_lt(ka, kb))
}

/// `a` is listed before `b`: it was used more recently, or at the same time
/// with a smaller sort key.
pub open spec fn mru_before(a: DisplayView, b: DisplayView) -> bool {
    key_before(ts_of(a), sort_key_of(a), ts_of(b), sort_key_of(b))
}

/// The MRU order as a relation.
pub open spec fn mru_order() -> spec_fn(DisplayView, DisplayView) -> bool {
    |a: DisplayView, b: DisplayView| mru_before(a, b)
}

/// The rows `s` listed most recently used first; rows that tie on both
/// timestamp and sort key keep their order.
pub open spec fn mru_sorted(s: Seq<DisplayView>) -> Seq<DisplayView> {
    sort_by(s, mru_order())
}

/// The MRU order is a strict order.
pub proof fn lemma_mru_order_strict()
    ensures
        is_strict_order(mru_order()),
{
    let lt = mru_order();
    assert forall|a: DisplayView| !(#[trigger] lt(a, a)) by {
        lemma_lex_lt_irreflexive(sort_key_of(a));
    }
    assert forall|a: DisplayView, b: DisplayView, c: DisplayView|
        #[trigger] lt(a, b) && #[trigger] lt(b, c) implies lt(a, c) by {
        if ts_of(a) == ts_of(b) && ts_of(b) == ts_of(c) {
            lemma_lex_lt_transitive(sort_key_of(a), sort_key_of(b), sort_key_of(c));
        }
    }
}

/// Every list the builders return is in MRU order and holds exactly the
/// rows it was built from.
pub proof fn lemma_mru_sorted(s: Seq<DisplayView>)
    ensures
        sorted_by(mru_sorted(s), mru_order()),
        mru_sorted(s).to_multiset() == s.to_multiset(),
        mru_sorted(s).len() == s.len(),
{
    lemma_mru_order_strict();
    lemma_sort_by_sorted(s, mru_order());
    lemma_sort_by_multiset(s, mru_order());
    vstd::seq_lib::to_multiset_len(s);
    vstd::seq_lib::to_multiset_len(mru_sorted(s));
}

/// The first position in `keys` whose row `(t, k)` sorts strictly before.
fn insert_pos(keys: &Vec<(u64, Vec<char>)>, t: u64, k: &Vec<char>) -> (p: usize)
    ensures
        p <= keys@.len(),
        forall|j: int| 0 <= j < p ==> !key_before(t, k@, (#[trigger] keys@[j]).0, keys@[j].1@),
        p < keys@.len() ==> key_before(t, k@, keys@[p as int].0, keys@[p as int].1@),
{
    let mut p: usize = 0;
    while p < keys.len()
        invariant
            p <= keys@.len(),
            forall|j: int| 0 <= j < p ==> !key_before(t, k@, (#[trigger] keys@[j]).0, keys@[j].1@),
        decreases keys@.len() - p,
    {
        let kt = keys[p].0;
        if t > kt {
            return p;
        }
        if t == kt && chars_lt(k.as_slice(), keys[p].1.as_slice()) {
            return p;
        }
        p = p + 1;
    }
    p
}

/// Sorts rows most recently used first (a stable sort).
fn mru_sort(items: Vec<DisplayItem>) -> (res: Vec<DisplayItem>)
    ensures
        res.deep_view() == mru_sorted(items.deep_view()),
{
    let ghost s = items.deep_view();
    let mut rest = items;
    let mut out: Vec<DisplayItem> = Vec::new();
    let mut keys: Vec<(u64, Vec<char>)> = Vec::new();
    let ghost mut done: int = 0;
    assert(rest.deep_view() =~= s.skip(0));
    assert(out.deep_view() =~= sort_by(s.take(0), mru_order()));
    while rest.len() > 0
        invariant
            0 <= done <= s.len(),
            rest.deep_view() == s.skip(done),
            out.deep_view() == sort_by(s.take(done), mru_order()),
            keys@.len() == out@.len(),
            forall|j: int|
                0 <= j < keys@.len() ==> (#[trigger] keys@[j]).0 == ts_of(out.deep_view()[j])
                    && keys@[j].1@ == sort_key_of(out.deep_view()[j]),
        decreases rest@.len(),
    {
        let ghost before_rest = rest.deep_view();
        let ghost before_out = out.deep_view();
        let ghost before_vec = rest@;
        let x = rest.remove(0);
        proof {
            assert(before_rest.len() == before_vec.len());
            assert(done < s.len());
            assert(before_rest[0] == before_vec[0].deep_view());
            assert(s.skip(done)[0] == s[done]);
            assert(rest.deep_view() =~= before_rest.drop_first());
            assert(x.deep_view() == s[done]);
            assert(s.skip(done).drop_first() =~= s.skip(done + 1));
        }
        let xt = x.display_ts();
        let xk = x.sort_key_chars();
        let p = insert_pos(&keys, xt, &xk);
        proof {
            let xv = x.deep_view();
            assert forall|j: int| 0 <= j < p implies !mru_order()(xv, #[trigger] before_out[j]) by {
                assert(keys@[j].0 == ts_of(before_out[j]));
            }
            if p < before_out.len() {
                assert(keys@[p as int].0 == ts_of(before_out[p as int]));
            }
            lemma_insert_sorted_at(before_out, xv, mru_order(), p as int);
            assert(s.take(done + 1).drop_last() =~= s.take(done));
            assert(s.take(done + 1).last() == xv);
        }
        out.insert(p, x);
        keys.insert(p, (xt, xk));
        proof {
            assert(out.deep_view() =~= before_out.insert(p as int, x.deep_view()));
            done = done + 1;
        }
    }
    proof {
        assert(s.take(s.len() as int) =~= s);
    }
    out
}

// ── Exclusion ──

/// The pane is the one focused before the navigator opened, or the
/// navigator's own pane.
pub open spec fn pane_excluded(pane: Seq<char>, exclude: Option<Seq<char>>, self_pane: Option<Seq<char>>) -> bool {
    exclude == Some(pane) || self_pane == Some(pane)
}

/// Whether a node stays in a pane-level list (it is neither the previously
/// focused pane nor the navigator's own pane).
fn exclude_pane(n: &NavigationNode, exclude_pane_id: Option<&str>, self_pane_id: Option<&str>) -> (keep: bool)
    ensures
        keep == !pane_excluded(n.pane_id@, exclude_pane_id.deep_view(), self_pane_id.deep_view()),
{
    match exclude_pane_id {
        Some(pid) => {
            if str_eq(n.pane_id.as_str(), pid) {
                return false;
            }
        },
        None => {},
    }
    match self_pane_id {
        Some(pid) => {
            if str_eq(n.pane_id.as_str(), pid) {
                return false;
            }
        },
        None => {},
    }
    true
}

/// Whether `id` equals the optional excluded id.
fn is_excluded_id(id: &str, exclude: Option<&str>) -> (res: bool)
    ensures
        res == (exclude.deep_view() == Some(id@)),
{
    match exclude {
        Some(x) => str_eq(id, x),
        None => false,
    }
}

// ── Panes ──

/// A pane's display name: its title, or its id when it has none.
pub open spec fn name_or_id(n: NodeView) -> Seq<char> {
    match n.pane_name {
        Some(s) => s,
        None => n.pane_id,
    }
}

/// The Panes row of a node.
pub open spec fn pane_row(n: NodeView, ts: Map<Seq<char>, u64>) -> DisplayView {
    DisplayView::Pane {
        pane_id: n.pane_id,
        pane_name: name_or_id(n),
        tab: n.tab_name,
        workspace: n.workspace_name,
        agent_id: n.agent_id,
        status: n.agent_status,
        last_accessed_at: ts_in(ts, n.pane_id),
    }
}

/// The Panes rows of `ns`, in node order: one per node that is not excluded.
pub open spec fn pane_rows(
    ns: Seq<NodeView>,
    ts: Map<Seq<char>, u64>,
    exclude: Option<Seq<char>>,
    self_pane: Option<Seq<char>>,
) -> Seq<DisplayView>
    decreases ns.len(),
{
    if ns.len() == 0 {
        seq![]
    } else {
        let prev = pane_rows(ns.drop_last(), ts, exclude, self_pane);
        if pane_excluded(ns.last().pane_id, exclude, self_pane) {
            prev
        } else {
            prev.push(pane_row(ns.last(), ts))
        }
    }
}

fn clone_opt(o: &Option<String>) -> (res: Option<String>)
    ensures
        res.deep_view() == o.deep_view(),
{
    match o {
        Some(s) => Some(s.clone()),
        None => None,
    }
}

fn name_or_id_of(n: &NavigationNode) -> (res: String)
    ensures
        res@ == name_or_id(n.deep_view()),
{
    match &n.pane_name {
        Some(s) => s.clone(),
        None => n.pane_id.clone(),
    }
}

fn pane_item(n: &NavigationNode, ts_map: &StrMap<u64>) -> (res: DisplayItem)
    ensures
        res.deep_view() == pane_row(n.deep_view(), ts_map@),
{
    DisplayItem::Pane {
        pane_id: n.pane_id.clone(),
        pane_name: name_or_id_of(n),
        tab: n.tab_name.clone(),
        workspace: n.workspace_name.clone(),
        agent_id: clone_opt(&n.agent_id),
        status: n.agent_status,
        last_accessed_at: ts_lookup(ts_map, n.pane_id.as_str()),
    }
}

/// Panes: one row per pane, without the previously focused pane and the
/// navigator's own pane, most recently used first.
fn build_pane_items(
    nodes: &[NavigationNode],
    ts_map: &StrMap<u64>,
    exclude_pane_id: Option<&str>,
    self_pane_id: Option<&str>,
) -> (res: Vec<DisplayItem>)
    ensures
        res.deep_view() == mru_sorted(
            pane_rows(nodes.deep_view(), ts_map@, exclude_pane_id.deep_view(), self_pane_id.deep_view()),
        ),
{
    let ghost ns = nodes.deep_view();
    let ghost ex = exclude_pane_id.deep_view();
    let ghost sp = self_pane_id.deep_view();
    let mut items: Vec<DisplayItem> = Vec::new();
    let mut i: usize = 0;
    assert(ns.take(0) =~= Seq::<NodeView>::empty());
    while i < nodes.len()
        invariant
            i <= nodes@.len(),
            ns == nodes.deep_view(),
            ex == exclude_pane_id.deep_view(),
            sp == self_pane_id.deep_view(),
            items.deep_view() == pane_rows(ns.take(i as int), ts_map@, ex, sp),
        decreases nodes@.len() - i,
    {
        let n = &nodes[i];
        proof {
            assert(ns.take(i + 1).drop_last() =~= ns.take(i as int));
            assert(ns.take(i + 1).last() == n.deep_view());
        }
        let ghost prev = items.deep_view();
        if exclude_pane(n, exclude_pane_id, self_pane_id) {
            let row = pane_item(n, ts_map);
            items.push(row);
            assert(items.deep_view() =~= prev.push(row.deep_view()));
        }
        i = i + 1;
    }
    assert(ns.take(nodes@.len() as int) =~= ns);
    mru_sort(items)
}

// ── Agents ──

/// The Agents row of a node.
pub open spec fn agent_row(n: NodeView, ts: Map<Seq<char>, u64>) -> DisplayView {
    DisplayView::Agent {
        agent_id: match n.agent_id {
            Some(a) => a,
            None => seq![],
        },
        status: n.agent_status,
        pane_id: n.pane_id,
        tab: n.tab_name,
        workspace: n.workspace_name,
        last_accessed_at: ts_in(ts, n.pane_id),
    }
}

/// The Agents rows of `ns`, in node order: one per node running an agent
/// that is not excluded.
pub open spec fn agent_rows(
    ns: Seq<NodeView>,
    ts: Map<Seq<char>, u64>,
    exclude: Option<Seq<char>>,
    self_pane: Option<Seq<char>>,
) -> Seq<DisplayView>
    decreases ns.len(),
{
    if ns.len() == 0 {
        seq![]
    } else {
        let prev = agent_rows(ns.drop_last(), ts, exclude, self_pane);
        if ns.last().agent_id is Some && !pane_excluded(ns.last().pane_id, exclude, self_pane) {
            prev.push(agent_row(ns.last(), ts))
        } else {
            prev
        }
    }
}

fn agent_item(n: &NavigationNode, ts_map: &StrMap<u64>) -> (res: DisplayItem)
    ensures
        res.deep_view() == agent_row(n.deep_view(), ts_map@),
{
    let agent_id = match &n.agent_id {
        Some(a) => a.clone(),
        None => String::new(),
    };
    DisplayItem::Agent {
        agent_id,
        status: n.agent_status,
        pane_id: n.pane_id.clone(),
        tab: n.tab_name.clone(),
        workspace: n.workspace_name.clone(),
        last_accessed_at: ts_lookup(ts_map, n.pane_id.as_str()),
    }
}

/// Agents: one row per pane running an agent, with the same exclusions as
/// Panes, most recently used first.
fn build_agent_items(
    nodes: &[NavigationNode],
    ts_map: &StrMap<u64>,
    exclude_pane_id: Option<&str>,
    self_pane_id: Option<&str>,
) -> (res: Vec<DisplayItem>)
    ensures
        res.deep_view() == mru_sorted(
            agent_rows(nodes.deep_view(), ts_map@, exclude_pane_id.deep_view(), self_pane_id.deep_view()),
        ),
{
    let ghost ns = nodes.deep_view();
    let ghost ex = exclude_pane_id.deep_view();
    let ghost sp = self_pane_id.deep_view();
    let mut items: Vec<DisplayItem> = Vec::new();
    let mut i: usize = 0;
    assert(ns.take(0) =~= Seq::<NodeView>::empty());
    while i < nodes.len()
        invariant
            i <= nodes@.len(),
            ns == nodes.deep_view(),
            ex == exclude_pane_id.deep_view(),
            sp == self_pane_id.deep_view(),
            items.deep_view() == agent_rows(ns.take(i as int), ts_map@, ex, sp),
        decreases nodes@.len() - i,
    {
        let n = &nodes[i];
        proof {
            assert(ns.take(i + 1).drop_last() =~= ns.take(i as int));
            assert(ns.take(i + 1).last() == n.deep_view());
        }
        let ghost prev = items.deep_view();
        if n.agent_id.is_some() && exclude_pane(n, exclude_pane_id, self_pane_id) {
            let row = agent_item(n, ts_map);
            items.push(row);
            assert(items.deep_view() =~= prev.push(row.deep_view()));
        }
        i = i + 1;
    }
    assert(ns.take(nodes@.len() as int) =~= ns);
    mru_sort(items)
}

// ── Workspaces and tabs ──

/// The id a node is grouped, excluded and timestamped by at workspace level
/// (`tabs == false`) or tab level (`tabs == true`).
pub open spec fn level_id(n: NodeView, tabs: bool) -> Seq<char> {
    if tabs {
        n.tab_id
    } else {
        n.workspace_id
    }
}

/// The key a node's group is found by: the workspace id, or for tabs
/// `workspace_id:tab_id`.
pub open spec fn group_key(n: NodeView, tabs: bool) -> Seq<char> {
    if tabs {
        n.workspace_id + seq![':'] + n.tab_id
    } else {
        n.workspace_id
    }
}

/// The empty group a node opens.
pub open spec fn new_group(n: NodeView, tabs: bool) -> DisplayView {
    if tabs {
        DisplayView::Tab {
            name: n.tab_name,
            workspace: n.workspace_name,
            tab_id: n.tab_id,
            pane_ids: seq![],
            agent_statuses: seq![],
            last_accessed_at: 0,
        }
    } else {
        DisplayView::Workspace {
            name: n.workspace_name,
            id: n.workspace_id,
            pane_ids: seq![],
            agent_statuses: seq![],
            last_accessed_at: 0,
        }
    }
}

pub open spec fn max_u64(a: u64, b: u64) -> u64 {
    if a >= b {
        a
    } else {
        b
    }
}

/// A group with one more pane: the pane's id is appended, its agent's status
/// too when it runs one, and the group's timestamp becomes the larger of the
/// two.
pub open spec fn add_to_group(g: DisplayView, n: NodeView, t: u64) -> DisplayView {
    match g {
        DisplayView::Workspace { name, id, pane_ids, agent_statuses, last_accessed_at } =>
            DisplayView::Workspace {
            name,
            id,
            pane_ids: pane_ids.push(n.pane_id),
            agent_statuses: if n.agent_id is Some {
                agent_statuses.push(n.agent_status)
            } else {
                agent_statuses
            },
            last_accessed_at: max_u64(last_accessed_at, t),
        },
        DisplayView::Tab { name, workspace, tab_id, pane_ids, agent_statuses, last_accessed_at } =>
            DisplayView::Tab {
            name,
            workspace,
            tab_id,
            pane_ids: pane_ids.push(n.pane_id),
            agent_statuses: if n.agent_id is Some {
                agent_statuses.push(n.agent_status)
            } else {
                agent_statuses
            },
            last_accessed_at: max_u64(last_accessed_at, t),
        },
        _ => g,
    }
}

/// The first group with key `k`, if any.
pub open spec fn key_index(gs: Seq<(Seq<char>, DisplayView)>, k: Seq<char>) -> Option<int> {
    if exists|j: int| 0 <= j < gs.len() && (#[trigger] gs[j]).0 == k {
        Some(
            choose|j: int|
                0 <= j < gs.len() && (#[trigger] gs[j]).0 == k && forall|m: int|
                    0 <= m < j ==> (#[trigger] gs[m]).0 != k,
        )
    } else {
        None
    }
}

proof fn lemma_minimal_key(gs: Seq<(Seq<char>, DisplayView)>, k: Seq<char>, j: int)
    requires
        0 <= j < gs.len(),
        gs[j].0 == k,
    ensures
        exists|c: int|
            0 <= c < gs.len() && (#[trigger] gs[c]).0 == k && forall|m: int|
                0 <= m < c ==> (#[trigger] gs[m]).0 != k,
    decreases j,
{
    if exists|m: int| 0 <= m < j && (#[trigger] gs[m]).0 == k {
        let m = choose|m: int| 0 <= m < j && (#[trigger] gs[m]).0 == k;
        lemma_minimal_key(gs, k, m);
    } else {
        assert(forall|m: int| 0 <= m < j ==> (#[trigger] gs[m]).0 != k);
    }
}

/// The group `key_index` finds holds the key, and no earlier one does.
pub proof fn lemma_key_index(gs: Seq<(Seq<char>, DisplayView)>, k: Seq<char>)
    ensures
        key_index(gs, k) matches Some(i) ==> 0 <= i < gs.len() && gs[i].0 == k && forall|m: int|
            0 <= m < i ==> (#[trigger] gs[m]).0 != k,
        key_index(gs, k) is None ==> forall|m: int| 0 <= m < gs.len() ==> (#[trigger] gs[m]).0 != k,
{
    if exists|j: int| 0 <= j < gs.len() && (#[trigger] gs[j]).0 == k {
        let j = choose|j: int| 0 <= j < gs.len() && (#[trigger] gs[j]).0 == k;
        lemma_minimal_key(gs, k, j);
    }
}

/// The keyed groups of `ns`, in order of first appearance: each node that
/// is not excluded joins the group of its key, opening it if needed.
pub open spec fn grouped(
    ns: Seq<NodeView>,
    ts: Map<Seq<char>, u64>,
    exclude: Option<Seq<char>>,
    tabs: bool,
) -> Seq<(Seq<char>, DisplayView)>
    decreases ns.len(),
{
    if ns.len() == 0 {
        seq![]
    } else {
        let prev = grouped(ns.drop_last(), ts, exclude, tabs);
        let n = ns.last();
        if exclude == Some(level_id(n, tabs)) {
            prev
        } else {
            let k = group_key(n, tabs);
            let t = ts_in(ts, level_id(n, tabs));
            match key_index(prev, k) {
                Some(j) => prev.update(j, (k, add_to_group(prev[j].1, n, t))),
                None => prev.push((k, add_to_group(new_group(n, tabs), n, t))),
            }
        }
    }
}

/// The rows of keyed groups.
pub open spec fn group_rows(gs: Seq<(Seq<char>, DisplayView)>) -> Seq<DisplayView> {
    gs.map_values(|p: (Seq<char>, DisplayView)| p.1)
}

/// The Workspaces rows of `ns` before ordering: one per workspace.
pub open spec fn workspace_rows(
    ns: Seq<NodeView>,
    ts: Map<Seq<char>, u64>,
    exclude: Option<Seq<char>>,
) -> Seq<DisplayView> {
    group_rows(grouped(ns, ts, exclude, false))
}

/// The Tabs rows of `ns` before ordering: one per (workspace, tab).
pub open spec fn tab_rows(
    ns: Seq<NodeView>,
    ts: Map<Seq<char>, u64>,
    exclude: Option<Seq<char>>,
) -> Seq<DisplayView> {
    group_rows(grouped(ns, ts, exclude, true))
}

fn level_id_of(n: &NavigationNode, tabs: bool) -> (res: &str)
    ensures
        res@ == level_id(n.deep_view(), tabs),
{
    if tabs {
        n.tab_id.as_str()
    } else {
        n.workspace_id.as_str()
    }
}

fn group_key_of(n: &NavigationNode, tabs: bool) -> (res: Vec<char>)
    ensures
        res@ == group_key(n.deep_view(), tabs),
{
    let mut k = chars_of(n.workspace_id.as_str());
    if tabs {
        k.push(':');
        extend_str(&mut k, n.tab_id.as_str());
    }
    k
}

fn new_group_of(n: &NavigationNode, tabs: bool) -> (res: DisplayItem)
    ensures
        res.deep_view() == new_group(n.deep_view(), tabs),
{
    let pane_ids: Vec<String> = Vec::new();
    let agent_statuses: Vec<AgentStatus> = Vec::new();
    assert(pane_ids.deep_view() =~= Seq::<Seq<char>>::empty());
    if tabs {
        DisplayItem::Tab {
            name: n.tab_name.clone(),
            workspace: n.workspace_name.clone(),
            tab_id: n.tab_id.clone(),
            pane_ids,
            agent_statuses,
            last_accessed_at: 0,
        }
    } else {
        DisplayItem::Workspace {
            name: n.workspace_name.clone(),
            id: n.workspace_id.clone(),
            pane_ids,
            agent_statuses,
            last_accessed_at: 0,
        }
    }
}

fn push_pane_id(pane_ids: &mut Vec<String>, id: String)
    ensures
        final(pane_ids).deep_view() == old(pane_ids).deep_view().push(id@),
{
    pane_ids.push(id);
    assert(pane_ids.deep_view() =~= old(pane_ids).deep_view().push(id@));
}

fn add_node(g: DisplayItem, n: &NavigationNode, t: u64) -> (res: DisplayItem)
    ensures
        res.deep_view() == add_to_group(g.deep_view(), n.deep_view(), t),
{
    match g {
        DisplayItem::Workspace { name, id, mut pane_ids, mut agent_statuses, last_accessed_at } => {
            push_pane_id(&mut pane_ids, n.pane_id.clone());
            if n.agent_id.is_some() {
                agent_statuses.push(n.agent_status);
            }
            let l = if last_accessed_at >= t {
                last_accessed_at
            } else {
                t
            };
            DisplayItem::Workspace { name, id, pane_ids, agent_statuses, last_accessed_at: l }
        },
        DisplayItem::Tab { name, workspace, tab_id, mut pane_ids, mut agent_statuses, last_accessed_at } => {
            push_pane_id(&mut pane_ids, n.pane_id.clone());
            if n.agent_id.is_some() {
                agent_statuses.push(n.agent_status);
            }
            let l = if last_accessed_at >= t {
                last_accessed_at
            } else {
                t
            };
            DisplayItem::Tab { name, workspace, tab_id, pane_ids, agent_statuses, last_accessed_at: l }
        },
        other => other,
    }
}

/// The index of the first key equal to `k`, if any.
fn find_key(keys: &Vec<Vec<char>>, k: &Vec<char>) -> (res: Option<usize>)
    ensures
        match res {
            Some(j) => j < keys@.len() && keys@[j as int]@ == k@ && forall|m: int|
                0 <= m < j ==> (#[trigger] keys@[m])@ != k@,
            None => forall|m: int| 0 <= m < keys@.len() ==> (#[trigger] keys@[m])@ != k@,
        },
{
    let mut j: usize = 0;
    while j < keys.len()
        invariant
            j <= keys@.len(),
            forall|m: int| 0 <= m < j ==> (#[trigger] keys@[m])@ != k@,
        decreases keys@.len() - j,
    {
        if eq_chars(keys[j].as_slice(), k.as_slice()) {
            return Some(j);
        }
        j = j + 1;
    }
    None
}

/// `keys` and `rows` hold the keys and rows of the groups `gs`.
pub open spec fn groups_match(keys: Seq<Vec<char>>, rows: Seq<DisplayView>, gs: Seq<(Seq<char>, DisplayView)>) -> bool {
    &&& keys.len() == gs.len()
    &&& rows.len() == gs.len()
    &&& forall|j: int| 0 <= j < gs.len() ==> (#[trigger] keys[j])@ == gs[j].0 && rows[j] == gs[j].1
}

/// Replacing the row of group `j` keeps keys, rows and groups in step.
#[verifier::spinoff_prover]
proof fn lemma_groups_match_update(
    keys: Seq<Vec<char>>,
    rows: Seq<DisplayView>,
    gs: Seq<(Seq<char>, DisplayView)>,
    j: int,
    row: DisplayView,
)
    requires
        groups_match(keys, rows, gs),
        0 <= j < gs.len(),
    ensures
        groups_match(keys, rows.update(j, row), gs.update(j, (gs[j].0, row))),
{
    let rows2 = rows.update(j, row);
    let gs2 = gs.update(j, (gs[j].0, row));
    assert forall|m: int| 0 <= m < gs2.len() implies (#[trigger] keys[m])@ == gs2[m].0 && rows2[m] == gs2[m].1 by {
        if m != j {
            assert(keys[m]@ == gs[m].0 && rows[m] == gs[m].1);
        } else {
            assert(keys[m]@ == gs[m].0);
        }
    }
}

/// Appending a new group keeps keys, rows and groups in step.
#[verifier::spinoff_prover]
proof fn lemma_groups_match_push(
    keys: Seq<Vec<char>>,
    rows: Seq<DisplayView>,
    gs: Seq<(Seq<char>, DisplayView)>,
    k: Vec<char>,
    row: DisplayView,
)
    requires
        groups_match(keys, rows, gs),
    ensures
        groups_match(keys.push(k), rows.push(row), gs.push((k@, row))),
{
    let keys2 = keys.push(k);
    let rows2 = rows.push(row);
    let gs2 = gs.push((k@, row));
    assert forall|m: int| 0 <= m < gs2.len() implies (#[trigger] keys2[m])@ == gs2[m].0 && rows2[m] == gs2[m].1 by {
        if m < gs.len() {
            assert(keys2[m] == keys[m]);
            assert(rows2[m] == rows[m]);
            assert(gs2[m] == gs[m]);
            assert(keys[m]@ == gs[m].0);
        } else {
            assert(m == gs.len());
            assert(keys2[m] == k);
        }
    }
}

/// Groups the nodes by workspace (`tabs == false`) or by tab, skipping the
/// excluded one, and orders the groups most recently used first.
#[verifier::spinoff_prover]
fn build_groups(
    nodes: &[NavigationNode],
    ts_map: &StrMap<u64>,
    exclude: Option<&str>,
    tabs: bool,
) -> (res: Vec<DisplayItem>)
    ensures
        res.deep_view() == mru_sorted(group_rows(grouped(nodes.deep_view(), ts_map@, exclude.deep_view(), tabs))),
{
    let ghost ns = nodes.deep_view();
    let ghost ex = exclude.deep_view();
    let mut groups: Vec<DisplayItem> = Vec::new();
    let mut keys: Vec<Vec<char>> = Vec::new();
    let mut i: usize = 0;
    assert(ns.take(0) =~= Seq::<NodeView>::empty());
    while i < nodes.len()
        invariant
            i <= nodes@.len(),
            ns == nodes.deep_view(),
            ex == exclude.deep_view(),
            keys@.len() == groups@.len(),
            groups_match(keys@, groups.deep_view(), grouped(ns.take(i as int), ts_map@, ex, tabs)),
        decreases nodes@.len() - i,
    {
        let n = &nodes[i];
        let ghost prev = grouped(ns.take(i as int), ts_map@, ex, tabs);
        let ghost nv = n.deep_view();
        proof {
            assert(ns.take(i + 1).drop_last() =~= ns.take(i as int));
            assert(ns.take(i + 1).last() == nv);
        }
        let ghost next = grouped(ns.take(i + 1), ts_map@, ex, tabs);
        let lid = level_id_of(n, tabs);
        if is_excluded_id(lid, exclude) {
            proof {
                assert(next == prev);
                assert forall|m: int| 0 <= m < keys@.len() implies (#[trigger] keys@[m])@ == next[m].0
                    && groups.deep_view()[m] == next[m].1 by {
                    assert(keys@[m]@ == prev[m].0);
                }
                assert(groups_match(keys@, groups.deep_view(), next));
            }
        } else {
            let k = group_key_of(n, tabs);
            let t = ts_lookup(ts_map, lid);
            match find_key(&keys, &k) {
                Some(j) => {
                    proof {
                        assert(prev[j as int].0 == k@);
                        assert forall|m: int| 0 <= m < j implies (#[trigger] prev[m]).0 != k@ by {
                            assert(keys@[m]@ == prev[m].0);
                        }
                        let c = choose|c: int|
                            0 <= c < prev.len() && (#[trigger] prev[c]).0 == k@ && forall|m: int|
                                0 <= m < c ==> (#[trigger] prev[m]).0 != k@;
                        assert(0 <= c < prev.len() && prev[c].0 == k@);
                        if c < j {
                            assert(keys@[c]@ == prev[c].0);
                        }
                        if c > j {
                            assert(prev[j as int].0 != k@);
                        }
                        assert(key_index(prev, k@) == Some(j as int));
                    }
                    let ghost old_groups = groups.deep_view();
                    let ghost old_vec = groups@;
                    let g = groups.remove(j);
                    assert(g.deep_view() == old_vec[j as int].deep_view());
                    let g2 = add_node(g, n, t);
                    groups.insert(j, g2);
                    proof {
                        assert(groups@ =~= old_vec.update(j as int, g2));
                        assert(groups.deep_view() =~= old_groups.update(j as int, g2.deep_view()));
                        assert(next == prev.update(j as int, (k@, add_to_group(prev[j as int].1, nv, t))));
                        lemma_groups_match_update(keys@, old_groups, prev, j as int, g2.deep_view());
                    }
                },
                None => {
                    proof {
                        assert forall|m: int| 0 <= m < prev.len() implies (#[trigger] prev[m]).0 != k@ by {
                            assert(keys@[m]@ == prev[m].0);
                        }
                        assert(key_index(prev, k@) is None);
                    }
                    let ghost old_groups = groups.deep_view();
                    let ghost old_keys = keys@;
                    let g0 = new_group_of(n, tabs);
                    let g2 = add_node(g0, n, t);
                    groups.push(g2);
                    keys.push(k);
                    proof {
                        assert(groups.deep_view() =~= old_groups.push(g2.deep_view()));
                        assert(next == prev.push((k@, add_to_group(new_group(nv, tabs), nv, t))));
                        lemma_groups_match_push(old_keys, old_groups, prev, k, g2.deep_view());
                    }
                },
            }
        }
        i = i + 1;
    }
    assert(ns.take(nodes@.len() as int) =~= ns);
    let ghost gs = grouped(ns, ts_map@, ex, tabs);
    assert forall|j: int| 0 <= j < gs.len() implies groups.deep_view()[j] == #[trigger] group_rows(gs)[j] by {
        assert(keys@[j]@ == gs[j].0);
    }
    assert(groups.deep_view() =~= group_rows(gs));
    mru_sort(groups)
}

/// Workspaces: one row per workspace, without the current workspace, with
/// the panes and agent statuses it holds and its latest focus time.
fn build_workspace_items(
    nodes: &[NavigationNode],
    ts_map: &StrMap<u64>,
    exclude_workspace_id: Option<&str>,
) -> (res: Vec<DisplayItem>)
    ensures
        res.deep_view() == mru_sorted(workspace_rows(nodes.deep_view(), ts_map@, exclude_workspace_id.deep_view())),
{
    build_groups(nodes, ts_map, exclude_workspace_id, false)
}

/// Tabs: one row per (workspace, tab), without the current tab, with the
/// panes and agent statuses it holds and its latest focus time.
fn build_tab_items(
    nodes: &[NavigationNode],
    ts_map: &StrMap<u64>,
    exclude_tab_id: Option<&str>,
) -> (res: Vec<DisplayItem>)
    ensures
        res.deep_view() == mru_sorted(tab_rows(nodes.deep_view(), ts_map@, exclude_tab_id.deep_view())),
{
    build_groups(nodes, ts_map, exclude_tab_id, true)
}

// ── Tab recency ──

/// Tab timestamps with a fallback: a tab whose panes were focused more
/// recently than its own last focus event takes the latest pane time.
/// Tab focus events are unreliable, so for tabs without one the latest pane
/// focus stands in.
pub open spec fn merged_tab_ts(
    ns: Seq<NodeView>,
    tab_ts: Map<Seq<char>, u64>,
    pane_ts: Map<Seq<char>, u64>,
) -> Map<Seq<char>, u64>
    decreases ns.len(),
{
    if ns.len() == 0 {
        tab_ts
    } else {
        let m = merged_tab_ts(ns.drop_last(), tab_ts, pane_ts);
        let n = ns.last();
        let p = ts_in(pane_ts, n.pane_id);
        if p > 0 {
            m.insert(n.tab_id, if m.contains_key(n.tab_id) { max_u64(m[n.tab_id], p) } else { p })
        } else {
            m
        }
    }
}

/// Merges direct tab timestamps with those derived from pane timestamps.
fn merge_tab_ts(nodes: &[NavigationNode], tab_ts: &StrMap<u64>, pane_ts: &StrMap<u64>) -> (res: StrMap<u64>)
    ensures
        res@ == merged_tab_ts(nodes.deep_view(), tab_ts@, pane_ts@),
{
    let ghost ns = nodes.deep_view();
    let mut merged = tab_ts.copied();
    let mut i: usize = 0;
    while i < nodes.len()
        invariant
            i <= nodes@.len(),
            ns == nodes.deep_view(),
            merged@ == merged_tab_ts(ns.take(i as int), tab_ts@, pane_ts@),
        decreases nodes@.len() - i,
    {
        let n = &nodes[i];
        proof {
            assert(ns.take(i + 1).drop_last() =~= ns.take(i as int));
            assert(ns.take(i + 1).last() == n.deep_view());
        }
        let p = ts_lookup(pane_ts, n.pane_id.as_str());
        if p > 0 {
            let v = match merged.get(n.tab_id.as_str()) {
                Some(e) => if *e >= p {
                    *e
                } else {
                    p
                },
                None => p,
            };
            merged.insert(n.tab_id.clone(), v);
        }
        i = i + 1;
    }
    assert(ns.take(nodes@.len() as int) =~= ns);
    merged
}

// ── Others ──

/// The text `-`, shown where a column has nothing to say.
pub open spec fn dash() -> Seq<char> {
    seq!['-']
}

fn dash_string() -> (res: String)
    ensures
        res@ == dash(),
{
    proof {
        reveal_strlit("-");
    }
    "-".to_owned()
}

/// An "Others" row of a node.
pub open spec fn other_row(
    n: NodeView,
    source: OtherSource,
    detail: Seq<char>,
    context: Seq<char>,
    t: u64,
) -> DisplayView {
    DisplayView::Other {
        pane_id: n.pane_id,
        pane_name: name_or_id(n),
        tab: n.tab_name,
        workspace: n.workspace_name,
        source,
        detail,
        context,
        last_accessed_at: t,
    }
}

/// The "Others" rows of one pane, in source order: its ssh target (Context:
/// the host without the login user), its foreground command unless that is
/// a shell (Context: the pane's cwd, or `-`), and its cwd (Context: `-`).
pub open spec fn pane_other_rows(n: NodeView, o: OthersView, t: u64) -> Seq<DisplayView> {
    let ssh_rows = match o.ssh_target {
        Some(ssh) => seq![other_row(n, OtherSource::Ssh, ssh, after_last(ssh, '@'), t)],
        None => seq![],
    };
    let cmd_rows = match o.command {
        Some(cmd) => if is_shell_name(program_name(cmd)) {
            seq![]
        } else {
            seq![other_row(n, OtherSource::Cmd, cmd, match o.cwd {
                Some(c) => c,
                None => dash(),
            }, t)]
        },
        None => seq![],
    };
    let cwd_rows = match o.cwd {
        Some(c) => seq![other_row(n, OtherSource::Cwd, c, dash(), t)],
        None => seq![],
    };
    ssh_rows + cmd_rows + cwd_rows
}

/// The "Others" rows of `ns`, in node order: for each pane that runs no
/// agent, is not excluded and has runtime state, its rows.
pub open spec fn other_rows(
    ns: Seq<NodeView>,
    ts: Map<Seq<char>, u64>,
    exclude: Option<Seq<char>>,
    self_pane: Option<Seq<char>>,
    others: Map<Seq<char>, PaneOthers>,
) -> Seq<DisplayView>
    decreases ns.len(),
{
    if ns.len() == 0 {
        seq![]
    } else {
        let prev = other_rows(ns.drop_last(), ts, exclude, self_pane, others);
        let n = ns.last();
        if n.agent_id is Some || pane_excluded(n.pane_id, exclude, self_pane) || !others.contains_key(
            n.pane_id,
        ) {
            prev
        } else {
            prev + pane_other_rows(n, others[n.pane_id].deep_view(), ts_in(ts, n.pane_id))
        }
    }
}

fn other_item(n: &NavigationNode, source: OtherSource, detail: String, context: String, t: u64) -> (res: DisplayItem)
    ensures
        res.deep_view() == other_row(n.deep_view(), source, detail@, context@, t),
{
    DisplayItem::Other {
        pane_id: n.pane_id.clone(),
        pane_name: name_or_id_of(n),
        tab: n.tab_name.clone(),
        workspace: n.workspace_name.clone(),
        source,
        detail,
        context,
        last_accessed_at: t,
    }
}

fn push_item(items: &mut Vec<DisplayItem>, it: DisplayItem)
    ensures
        final(items).deep_view() == old(items).deep_view().push(it.deep_view()),
{
    items.push(it);
    assert(items.deep_view() =~= old(items).deep_view().push(it.deep_view()));
}

/// Others: one row per (pane × available source) for panes that run no
/// agent, with the Panes exclusions, most recently used first. A pane's rows
/// stay together in source order when their times tie.
fn build_other_items(
    nodes: &[NavigationNode],
    ts_map: &StrMap<u64>,
    exclude_pane_id: Option<&str>,
    self_pane_id: Option<&str>,
    others: &StrMap<PaneOthers>,
) -> (res: Vec<DisplayItem>)
    ensures
        res.deep_view() == mru_sorted(
            other_rows(nodes.deep_view(), ts_map@, exclude_pane_id.deep_view(), self_pane_id.deep_view(), others@),
        ),
{
    let ghost ns = nodes.deep_view();
    let ghost ex = exclude_pane_id.deep_view();
    let ghost sp = self_pane_id.deep_view();
    let mut items: Vec<DisplayItem> = Vec::new();
    let mut i: usize = 0;
    assert(ns.take(0) =~= Seq::<NodeView>::empty());
    while i < nodes.len()
        invariant
            i <= nodes@.len(),
            ns == nodes.deep_view(),
            ex == exclude_pane_id.deep_view(),
            sp == self_pane_id.deep_view(),
            items.deep_view() == other_rows(ns.take(i as int), ts_map@, ex, sp, others@),
        decreases nodes@.len() - i,
    {
        let n = &nodes[i];
        let ghost nv = n.deep_view();
        proof {
            assert(ns.take(i + 1).drop_last() =~= ns.take(i as int));
            assert(ns.take(i + 1).last() == nv);
        }
        let ghost prev = items.deep_view();
        if n.agent_id.is_none() && exclude_pane(n, exclude_pane_id, self_pane_id) {
            match others.get(n.pane_id.as_str()) {
                Some(o) => {
                    let t = ts_lookup(ts_map, n.pane_id.as_str());
                    let ghost ov = o.deep_view();
                    match &o.ssh_target {
                        Some(ssh) => {
                            let sc = chars_of(ssh.as_str());
                            let host = after_last_char(sc.as_slice(), '@');
                            let it = other_item(n, OtherSource::Ssh, ssh.clone(), string_of(host.as_slice()), t);
                            push_item(&mut items, it);
                        },
                        None => {},
                    }
                    let ghost after_ssh = items.deep_view();
                    match &o.command {
                        Some(cmd) => {
                            if !command_is_shell(cmd.as_str()) {
                                let ctx = match &o.cwd {
                                    Some(c) => c.clone(),
                                    None => dash_string(),
                                };
                                let it = other_item(n, OtherSource::Cmd, cmd.clone(), ctx, t);
                                push_item(&mut items, it);
                            }
                        },
                        None => {},
                    }
                    let ghost after_cmd = items.deep_view();
                    match &o.cwd {
                        Some(c) => {
                            let it = other_item(n, OtherSource::Cwd, c.clone(), dash_string(), t);
                            push_item(&mut items, it);
                        },
                        None => {},
                    }
                    proof {
                        let rows = pane_other_rows(nv, ov, t);
                        assert(items.deep_view() =~= prev + rows);
                    }
                },
                None => {},
            }
        }
        i = i + 1;
    }
    assert(ns.take(nodes@.len() as int) =~= ns);
    mru_sort(items)
}

// ── Content search ──

/// `s` without trailing `c` characters (`str::trim_end_matches`).
pub open spec fn trim_end_char(s: Seq<char>, c: char) -> Seq<char>
    decreases s.len(),
{
    if s.len() > 0 && s.last() == c {
        trim_end_char(s.drop_last(), c)
    } else {
        s
    }
}

/// The Context of a `file` row: the edited path, made absolute with the
/// pane's cwd when relative, plus `:line` when known.
pub open spec fn file_context_of(path: Seq<char>, line: Option<u32>, cwd: Option<Seq<char>>) -> Seq<char> {
    let abs = if path.len() > 0 && path[0] == '/' {
        path
    } else {
        match cwd {
            Some(c) => trim_end_char(c, '/') + seq!['/'] + path,
            None => path,
        }
    };
    match line {
        Some(l) => abs + seq![':'] + decimal(l as nat),
        None => abs,
    }
}

fn trim_end_slashes(s: &str) -> (res: Vec<char>)
    ensures
        res@ == trim_end_char(s@, '/'),
{
    let v = chars_of(s);
    let mut j: usize = v.len();
    assert(v@.take(j as int) =~= v@);
    while j > 0 && v[j - 1] == '/'
        invariant
            j <= v@.len(),
            v@ == s@,
            trim_end_char(s@, '/') == trim_end_char(v@.take(j as int), '/'),
        decreases j,
    {
        proof {
            assert(v@.take(j as int).drop_last() =~= v@.take(j - 1));
        }
        j = j - 1;
    }
    let r = sub_chars(v.as_slice(), 0, j);
    assert(r@ =~= v@.take(j as int));
    r
}

/// Builds the Context value for a `file` row.
fn file_context(path: String, line: Option<u32>, cwd: Option<&str>) -> (res: String)
    ensures
        res@ == file_context_of(path@, line, cwd.deep_view()),
{
    let p = chars_of(path.as_str());
    let mut abs: Vec<char> = if p.len() > 0 && p[0] == '/' {
        p
    } else {
        match cwd {
            Some(c) => {
                let mut a = trim_end_slashes(c);
                a.push('/');
                extend_chars(&mut a, p.as_slice());
                a
            },
            None => p,
        }
    };
    match line {
        Some(l) => {
            abs.push(':');
            let d = decimal_chars(l as u64);
            extend_chars(&mut abs, d.as_slice());
        },
        None => {},
    }
    string_of(abs.as_slice())
}

/// A pane's title, empty when it has none.
pub open spec fn title_of(n: NodeView) -> Seq<char> {
    match n.pane_name {
        Some(s) => s,
        None => seq![],
    }
}

/// The runtime state recorded for a pane, if any.
pub open spec fn state_of(others: Map<Seq<char>, PaneOthers>, pane: Seq<char>) -> Option<OthersView> {
    if others.contains_key(pane) {
        Some(others[pane].deep_view())
    } else {
        None
    }
}

/// The command line that makes a pane a file row: its foreground command
/// when that is an editor, or, while no process state is known, its title
/// when that names an editor.
pub open spec fn editor_command(command: Option<Seq<char>>, title: Seq<char>) -> Option<Seq<char>> {
    match command {
        Some(c) => if is_editor_name(program_name(c)) {
            Some(c)
        } else {
            None
        },
        None => if is_editor_name(program_name(title)) {
            Some(title)
        } else {
            None
        },
    }
}

/// A pane is editing a file: an editor command line is known and its title
/// does not look like a shell prompt.
pub open spec fn editing_file(n: NodeView, st: Option<OthersView>) -> bool {
    let cmd = match st {
        Some(o) => o.command,
        None => None,
    };
    !is_prompt_title(title_of(n)) && editor_command(cmd, title_of(n)) is Some
}

/// The Context of a content-search row.
pub open spec fn content_context(n: NodeView, st: Option<OthersView>) -> Seq<char> {
    let cmd = match st {
        Some(o) => o.command,
        None => None,
    };
    let cwd = match st {
        Some(o) => o.cwd,
        None => None,
    };
    if editing_file(n, st) {
        match editor_command(cmd, title_of(n)) {
            Some(c) => match editor_target(c) {
                Some((path, line)) => file_context_of(path, line, cwd),
                None => dash(),
            },
            None => dash(),
        }
    } else {
        dash()
    }
}

/// The content-search row of a pane whose buffer matched with `detail`.
pub open spec fn content_row(n: NodeView, st: Option<OthersView>, detail: Seq<char>, t: u64) -> DisplayView {
    other_row(
        n,
        if editing_file(n, st) {
            OtherSource::File
        } else {
            OtherSource::Terminal
        },
        detail,
        content_context(n, st),
        t,
    )
}

/// The content-search rows of `ns`, in node order: one per pane that runs
/// no agent, is not excluded, and whose buffer holds the query.
pub open spec fn content_rows(
    ns: Seq<NodeView>,
    contents: Map<Seq<char>, String>,
    others: Map<Seq<char>, PaneOthers>,
    ts: Map<Seq<char>, u64>,
    exclude: Option<Seq<char>>,
    self_pane: Option<Seq<char>>,
    query: Seq<char>,
) -> Seq<DisplayView>
    decreases ns.len(),
{
    if ns.len() == 0 {
        seq![]
    } else {
        let prev = content_rows(ns.drop_last(), contents, others, ts, exclude, self_pane, query);
        let n = ns.last();
        if n.agent_id is Some || pane_excluded(n.pane_id, exclude, self_pane) || !contents.contains_key(
            n.pane_id,
        ) {
            prev
        } else {
            match excerpt_of(contents[n.pane_id]@, query) {
                Some(d) => prev.push(content_row(n, state_of(others, n.pane_id), d, ts_in(ts, n.pane_id))),
                None => prev,
            }
        }
    }
}

fn content_item(n: &NavigationNode, state: Option<&PaneOthers>, detail: String, t: u64) -> (res: DisplayItem)
    ensures
        res.deep_view() == content_row(n.deep_view(), state.deep_view(), detail@, t),
{
    proof {
        reveal_strlit("");
    }
    let title: &str = match &n.pane_name {
        Some(s) => s.as_str(),
        None => "",
    };
    let command: Option<&str> = match state {
        Some(o) => match &o.command {
            Some(c) => Some(c.as_str()),
            None => None,
        },
        None => None,
    };
    let cwd: Option<&str> = match state {
        Some(o) => match &o.cwd {
            Some(c) => Some(c.as_str()),
            None => None,
        },
        None => None,
    };
    let editor_cmd: Option<&str> = match command {
        Some(c) => if command_is_editor(c) {
            Some(c)
        } else {
            None
        },
        None => if command_is_editor(title) {
            Some(title)
        } else {
            None
        },
    };
    let editing = !is_shell_prompt_title(title) && editor_cmd.is_some();
    let context = if editing {
        match editor_cmd {
            Some(c) => match parse_editor_target(c) {
                Some((path, line)) => file_context(path, line, cwd),
                None => dash_string(),
            },
            None => dash_string(),
        }
    } else {
        dash_string()
    };
    let source = if editing {
        OtherSource::File
    } else {
        OtherSource::Terminal
    };
    other_item(n, source, detail, context, t)
}

/// Every pane the content search looks into (one that runs no agent, is
/// not excluded, and has a cached buffer) can be searched for `query`
/// without the search's byte offsets leaving character boundaries (see
/// `excerpt_safe`).
pub open spec fn content_search_ok(
    ns: Seq<NodeView>,
    contents: Map<Seq<char>, String>,
    exclude: Option<Seq<char>>,
    self_pane: Option<Seq<char>>,
    query: Seq<char>,
) -> bool {
    forall|i: int|
        0 <= i < ns.len() && (#[trigger] ns[i]).agent_id is None && !pane_excluded(ns[i].pane_id, exclude, self_pane)
            && contents.contains_key(ns[i].pane_id) ==> excerpt_safe(contents[ns[i].pane_id]@, query)
}

/// The content-search rows, or `None` where the search of some pane's
/// buffer would not land on character boundaries.
fn content_items_search(
    nodes: &[NavigationNode],
    contents: &StrMap<String>,
    others: &StrMap<PaneOthers>,
    ts_map: &StrMap<u64>,
    exclude_pane_id: Option<&str>,
    self_pane_id: Option<&str>,
    query: &str,
) -> (res: Option<Vec<DisplayItem>>)
    ensures
        res is None <==> !content_search_ok(
            nodes.deep_view(),
            contents@,
            exclude_pane_id.deep_view(),
            self_pane_id.deep_view(),
            query@,
        ),
        res matches Some(v) ==> v.deep_view() == mru_sorted(
            content_rows(
                nodes.deep_view(),
                contents@,
                others@,
                ts_map@,
                exclude_pane_id.deep_view(),
                self_pane_id.deep_view(),
                query@,
            ),
        ),
{
    let ghost ns = nodes.deep_view();
    let ghost ex = exclude_pane_id.deep_view();
    let ghost sp = self_pane_id.deep_view();
    let mut items: Vec<DisplayItem> = Vec::new();
    let mut i: usize = 0;
    assert(ns.take(0) =~= Seq::<NodeView>::empty());
    while i < nodes.len()
        invariant
            i <= nodes@.len(),
            ns == nodes.deep_view(),
            ex == exclude_pane_id.deep_view(),
            sp == self_pane_id.deep_view(),
            items.deep_view() == content_rows(ns.take(i as int), contents@, others@, ts_map@, ex, sp, query@),
            content_search_ok(ns.take(i as int), contents@, ex, sp, query@),
        decreases nodes@.len() - i,
    {
        let n = &nodes[i];
        proof {
            assert(ns.take(i + 1).drop_last() =~= ns.take(i as int));
            assert(ns.take(i + 1).last() == n.deep_view());
            assert(ns[i as int] == n.deep_view());
        }
        if n.agent_id.is_none() && exclude_pane(n, exclude_pane_id, self_pane_id) {
            match contents.get(n.pane_id.as_str()) {
                Some(content) => {
                    match try_content_excerpt(content.as_str(), query) {
                        None => {
                            proof {
                                assert(ns[i as int].agent_id is None);
                                assert(!content_search_ok(ns, contents@, ex, sp, query@));
                            }
                            return None;
                        },
                        Some(found) => {
                            match found {
                                Some(detail) => {
                                    let state = others.get(n.pane_id.as_str());
                                    proof {
                                        assert(state.deep_view() == state_of(others@, n.pane_id@));
                                    }
                                    let t = ts_lookup(ts_map, n.pane_id.as_str());
                                    let it = content_item(n, state, detail, t);
                                    push_item(&mut items, it);
                                },
                                None => {},
                            }
                        },
                    }
                },
                None => {},
            }
        }
        proof {
            let tk = ns.take(i + 1);
            assert forall|k: int|
                0 <= k < tk.len() && (#[trigger] tk[k]).agent_id is None && !pane_excluded(tk[k].pane_id, ex, sp)
                    && contents@.contains_key(tk[k].pane_id) implies excerpt_safe(contents@[tk[k].pane_id]@, query@) by {
                if k < i {
                    assert(tk[k] == ns.take(i as int)[k]);
                }
            }
        }
        i = i + 1;
    }
    assert(ns.take(nodes@.len() as int) =~= ns);
    Some(mru_sort(items))
}

/// The rows for a `.`-prefixed content search in the Others tab: one per
/// pane that runs no agent, is not excluded, and whose cached buffer holds
/// `query`, with a one-line excerpt around the first hit as its detail,
/// most recently used first. Every such pane's search must land on
/// character boundaries ([`try_build_content_items`] tests it).
///
/// A pane editing a file (its foreground command, or while that is unknown
/// its title, names an editor, and its title is not a shell prompt) gives a
/// `file` row whose Context is the edited path; any other pane a `term` row
/// with Context `-`.
pub fn build_content_items(
    nodes: &[NavigationNode],
    contents: &StrMap<String>,
    others: &StrMap<PaneOthers>,
    ts_map: &StrMap<u64>,
    exclude_pane_id: Option<&str>,
    self_pane_id: Option<&str>,
    query: &str,
) -> (res: Vec<DisplayItem>)
    requires
        content_search_ok(
            nodes.deep_view(),
            contents@,
            exclude_pane_id.deep_view(),
            self_pane_id.deep_view(),
            query@,
        ),
    ensures
        res.deep_view() == mru_sorted(
            content_rows(
                nodes.deep_view(),
                contents@,
                others@,
                ts_map@,
                exclude_pane_id.deep_view(),
                self_pane_id.deep_view(),
                query@,
            ),
        ),
{
    match content_items_search(nodes, contents, others, ts_map, exclude_pane_id, self_pane_id, query) {
        Some(v) => v,
        None => Vec::new(),
    }
}

/// The content-search rows as [`build_content_items`] builds them where
/// every searched pane's search lands on character boundaries (see
/// [`content_search_ok`]); `None` where one would not.
pub fn try_build_content_items(
    nodes: &[NavigationNode],
    contents: &StrMap<String>,
    others: &StrMap<PaneOthers>,
    ts_map: &StrMap<u64>,
    exclude_pane_id: Option<&str>,
    self_pane_id: Option<&str>,
    query: &str,
) -> (res: Option<Vec<DisplayItem>>)
    ensures
        res is None <==> !content_search_ok(
            nodes.deep_view(),
            contents@,
            exclude_pane_id.deep_view(),
            self_pane_id.deep_view(),
            query@,
        ),
        res matches Some(v) ==> v.deep_view() == mru_sorted(
            content_rows(
                nodes.deep_view(),
                contents@,
                others@,
                ts_map@,
                exclude_pane_id.deep_view(),
                self_pane_id.deep_view(),
                query@,
            ),
        ),
{
    match content_items_search(nodes, contents, others, ts_map, exclude_pane_id, self_pane_id, query) {
        None => None,
        Some(_) => Some(build_content_items(nodes, contents, others, ts_map, exclude_pane_id, self_pane_id, query)),
    }
}

// ── The category lists ──

/// The list shown for a category: Workspaces, Tabs, Agents, Panes and
/// Others each from their own builder; All lists the Workspaces, Tabs,
/// Panes and Agents rows one after the other.
pub open spec fn display_rows(ns: Seq<NodeView>, o: OptionsView, category: CategoryTab) -> Seq<DisplayView> {
    let ws = mru_sorted(workspace_rows(ns, o.ws_ts, o.active_workspace_id));
    let tabs = mru_sorted(tab_rows(ns, merged_tab_ts(ns, o.tab_ts, o.pane_ts), o.active_tab_id));
    let agents = mru_sorted(agent_rows(ns, o.pane_ts, o.active_pane_id, o.self_pane_id));
    let panes = mru_sorted(pane_rows(ns, o.pane_ts, o.active_pane_id, o.self_pane_id));
    match category {
        CategoryTab::Workspaces => ws,
        CategoryTab::Tabs => tabs,
        CategoryTab::Agents => agents,
        CategoryTab::Panes => panes,
        CategoryTab::Others => mru_sorted(other_rows(ns, o.pane_ts, o.active_pane_id, o.self_pane_id, o.others)),
        CategoryTab::All => ws + tabs + panes + agents,
    }
}

fn append_items(out: &mut Vec<DisplayItem>, more: Vec<DisplayItem>)
    ensures
        final(out).deep_view() == old(out).deep_view() + more.deep_view(),
{
    let ghost start = out.deep_view();
    let mut rest = more;
    let ghost m = rest.deep_view();
    let ghost mut done: int = 0;
    assert(m.skip(0) =~= m);
    while rest.len() > 0
        invariant
            0 <= done <= m.len(),
            rest.deep_view() == m.skip(done),
            out.deep_view() == start + m.take(done),
        decreases rest@.len(),
    {
        let ghost rv = rest@;
        let ghost ov = out.deep_view();
        let x = rest.remove(0);
        proof {
            assert(rest.deep_view() =~= m.skip(done).drop_first());
            assert(m.skip(done).drop_first() =~= m.skip(done + 1));
            assert(rv.len() == m.skip(done).len());
            assert(x.deep_view() == m.skip(done)[0]);
        }
        out.push(x);
        proof {
            assert(out.deep_view() =~= ov.push(x.deep_view()));
            assert(m.take(done + 1) =~= m.take(done).push(m[done]));
            done = done + 1;
        }
    }
    assert(m.take(m.len() as int) =~= m);
}

/// Builds the list for a category.
///
/// Workspaces leave out the current workspace; Tabs the current tab; Panes,
/// Agents and Others the previously focused pane and the navigator's own
/// pane. Each list is ordered most recently used first, by its own level's
/// timestamps (tabs fall back to their panes' latest focus).
pub fn build_display_list(nodes: &[NavigationNode], opts: &BuildOptions, category: &CategoryTab) -> (res: Vec<DisplayItem>)
    ensures
        res.deep_view() == display_rows(nodes.deep_view(), opts@, *category),
{
    match category {
        CategoryTab::Workspaces => build_workspace_items(nodes, opts.ws_ts, opts.active_workspace_id),
        CategoryTab::Tabs => {
            let merged = merge_tab_ts(nodes, opts.tab_ts, opts.pane_ts);
            build_tab_items(nodes, &merged, opts.active_tab_id)
        },
        CategoryTab::Agents => build_agent_items(nodes, opts.pane_ts, opts.active_pane_id, opts.self_pane_id),
        CategoryTab::Panes => build_pane_items(nodes, opts.pane_ts, opts.active_pane_id, opts.self_pane_id),
        CategoryTab::Others => build_other_items(
            nodes,
            opts.pane_ts,
            opts.active_pane_id,
            opts.self_pane_id,
            opts.others,
        ),
        CategoryTab::All => {
            let mut out = build_workspace_items(nodes, opts.ws_ts, opts.active_workspace_id);
            let merged = merge_tab_ts(nodes, opts.tab_ts, opts.pane_ts);
            append_items(&mut out, build_tab_items(nodes, &merged, opts.active_tab_id));
            append_items(
                &mut out,
                build_pane_items(nodes, opts.pane_ts, opts.active_pane_id, opts.self_pane_id),
            );
            append_items(
                &mut out,
                build_agent_items(nodes, opts.pane_ts, opts.active_pane_id, opts.self_pane_id),
            );
            out
        },
    }
}

// ── Cache key ──

/// The little-endian bytes of `x`.
pub open spec fn u64_bytes(x: u64) -> Seq<u8> {
    seq![
        (x & 0xff) as u8,
        ((x >> 8u64) & 0xff) as u8,
        ((x >> 16u64) & 0xff) as u8,
        ((x >> 24u64) & 0xff) as u8,
        ((x >> 32u64) & 0xff) as u8,
        ((x >> 40u64) & 0xff) as u8,
        ((x >> 48u64) & 0xff) as u8,
        ((x >> 56u64) & 0xff) as u8,
    ]
}

/// The little-endian bytes of a character's code point.
pub open spec fn char_bytes(c: char) -> Seq<u8> {
    let x = c as u32;
    seq![(x & 0xff) as u8, ((x >> 8u32) & 0xff) as u8, ((x >> 16u32) & 0xff) as u8, ((x >> 24u32) & 0xff) as u8]
}

/// The code point bytes of a text, character after character.
pub open spec fn text_bytes(s: Seq<char>) -> Seq<u8>
    decreases s.len(),
{
    if s.len() == 0 {
        seq![]
    } else {
        text_bytes(s.drop_last()) + char_bytes(s.last())
    }
}

/// What an optional id contributes to the key: a presence tag, then the
/// id's bytes when present.
pub open spec fn opt_writes(o: Option<Seq<char>>) -> Seq<Seq<u8>> {
    match o {
        Some(s) => seq![seq![1u8], text_bytes(s)],
        None => seq![seq![0u8]],
    }
}

/// The byte strings hashed into the cache key of a non-empty node list: the
/// node count, the first node's time and workspace id, the last node's time,
/// the category label, the search query and the four exclusion ids.
pub open spec fn cache_key_writes(ns: Seq<NodeView>, o: OptionsView, category: CategoryTab, query: Seq<char>) -> Seq<Seq<u8>> {
    seq![
        u64_bytes(ns.len() as u64),
        u64_bytes(ns[0].last_accessed_at),
        text_bytes(ns[0].workspace_id),
        u64_bytes(ns.last().last_accessed_at),
        text_bytes(label_of(category)),
        text_bytes(query),
    ] + opt_writes(o.active_workspace_id) + opt_writes(o.active_pane_id) + opt_writes(o.active_tab_id)
        + opt_writes(o.self_pane_id)
}

fn u64_bytes_of(x: u64) -> (res: Vec<u8>)
    ensures
        res@ == u64_bytes(x),
{
    let mut v: Vec<u8> = Vec::new();
    v.push((x & 0xff) as u8);
    v.push(((x >> 8u64) & 0xff) as u8);
    v.push(((x >> 16u64) & 0xff) as u8);
    v.push(((x >> 24u64) & 0xff) as u8);
    v.push(((x >> 32u64) & 0xff) as u8);
    v.push(((x >> 40u64) & 0xff) as u8);
    v.push(((x >> 48u64) & 0xff) as u8);
    v.push(((x >> 56u64) & 0xff) as u8);
    assert(v@ =~= u64_bytes(x));
    v
}

fn text_bytes_of(s: &str) -> (res: Vec<u8>)
    ensures
        res@ == text_bytes(s@),
{
    let c = chars_of(s);
    let mut v: Vec<u8> = Vec::new();
    let mut i: usize = 0;
    assert(c@.take(0) =~= Seq::<char>::empty());
    while i < c.len()
        invariant
            i <= c@.len(),
            c@ == s@,
            v@ == text_bytes(c@.take(i as int)),
        decreases c@.len() - i,
    {
        let x = c[i] as u32;
        let ghost before = v@;
        v.push((x & 0xff) as u8);
        v.push(((x >> 8u32) & 0xff) as u8);
        v.push(((x >> 16u32) & 0xff) as u8);
        v.push(((x >> 24u32) & 0xff) as u8);
        proof {
            assert(c@.take(i + 1).drop_last() =~= c@.take(i as int));
            assert(c@.take(i + 1).last() == c@[i as int]);
            assert(v@ =~= before + char_bytes(c@[i as int]));
        }
        i = i + 1;
    }
    assert(c@.take(c@.len() as int) =~= c@);
    v
}

fn hash_write(h: &mut DefaultHasher, bytes: Vec<u8>)
    ensures
        final(h)@ == old(h)@.push(bytes@),
{
    h.write(bytes.as_slice());
}

fn hash_opt(h: &mut DefaultHasher, o: Option<&str>)
    ensures
        final(h)@ == old(h)@ + opt_writes(o.deep_view()),
{
    match o {
        Some(s) => {
            let mut tag: Vec<u8> = Vec::new();
            tag.push(1u8);
            assert(tag@ =~= seq![1u8]);
            hash_write(h, tag);
            hash_write(h, text_bytes_of(s));
        },
        None => {
            let mut tag: Vec<u8> = Vec::new();
            tag.push(0u8);
            assert(tag@ =~= seq![0u8]);
            hash_write(h, tag);
        },
    }
    assert(h@ =~= old(h)@ + opt_writes(o.deep_view()));
}

/// The cache key of a list's inputs: 0 for no nodes, else the
/// `DefaultHasher` digest of what `cache_key_writes` feeds it.
pub open spec fn cache_key_of(ns: Seq<NodeView>, o: OptionsView, category: CategoryTab, query: Seq<char>) -> u64 {
    if ns.len() == 0 {
        0
    } else {
        DefaultHasher::spec_finish(cache_key_writes(ns, o, category, query))
    }
}

/// A lightweight key for the display list: the `DefaultHasher` digest of
/// the node count, the first and last nodes' times, the first node's
/// workspace, the category, the search query and the exclusions; 0 (always
/// rebuild) for an empty node list.
pub fn build_cache_key(
    nodes: &[NavigationNode],
    opts: &BuildOptions,
    category: &CategoryTab,
    search_query: &str,
) -> (res: u64)
    ensures
        nodes@.len() == 0 ==> res == 0,
        nodes@.len() > 0 ==> res == DefaultHasher::spec_finish(
            cache_key_writes(nodes.deep_view(), opts@, *category, search_query@),
        ),
        res == cache_key_of(nodes.deep_view(), opts@, *category, search_query@),
{
    if nodes.len() == 0 {
        return 0;
    }
    let ghost ns = nodes.deep_view();
    let mut h = DefaultHasher::new();
    hash_write(&mut h, u64_bytes_of(nodes.len() as u64));
    hash_write(&mut h, u64_bytes_of(nodes[0].last_accessed_at));
    hash_write(&mut h, text_bytes_of(nodes[0].workspace_id.as_str()));
    hash_write(&mut h, u64_bytes_of(nodes[nodes.len() - 1].last_accessed_at));
    hash_write(&mut h, text_bytes_of(category.label()));
    hash_write(&mut h, text_bytes_of(search_query));
    hash_opt(&mut h, opts.active_workspace_id);
    hash_opt(&mut h, opts.active_pane_id);
    hash_opt(&mut h, opts.active_tab_id);
    hash_opt(&mut h, opts.self_pane_id);
    proof {
        assert(ns.len() == nodes@.len());
        assert(ns[0] == nodes@[0].deep_view());
        assert(ns.last() == nodes@[nodes@.len() - 1].deep_view());
        assert(h@ =~= cache_key_writes(ns, opts@, *category, search_query@));
    }
    h.finish()
}

// ── Fuzzy search ──

/// The nucleo fuzzy-match score of `text` for the query `query`, parsed as
/// a case-insensitive, smart-normalizing pattern; `None` when it does not
/// match.
pub uninterp spec fn fuzzy_score(query: Seq<char>, text: Seq<char>) -> Option<u32>;

/// The match positions nucleo reports for the same pattern, one run per
/// query word, unsorted; `None` when it does not match.
pub uninterp spec fn fuzzy_indices(query: Seq<char>, text: Seq<char>) -> Option<Seq<u32>>;

/// Scores `text` against `query` with `nucleo_matcher::pattern::Pattern::score`
/// (pattern parsed with `CaseMatching::Ignore` and `Normalization::Smart`,
/// default matcher configuration). The result is `fuzzy_score` of the two.
#[verifier::external_body]
fn fuzzy_score_of(query: &str, text: &str) -> (res: Option<u32>)
    ensures
        res == fuzzy_score(query@, text@),
{
    let pattern = Pattern::parse(query, CaseMatching::Ignore, Normalization::Smart);
    let mut matcher = Matcher::new(Config::DEFAULT);
    let mut buf = Vec::new();
    pattern.score(Utf32Str::new(text, &mut buf), &mut matcher)
}

/// Every character of `s` is ASCII.
pub open spec fn is_ascii_text(s: Seq<char>) -> bool {
    forall|k: int| 0 <= k < s.len() ==> (#[trigger] s[k] as u32) < 0x80
}

/// Every position of `raw` lies inside nucleo's view of `text`: below its
/// byte length, and below its character count when it is ASCII.
pub open spec fn indices_within(raw: Seq<u32>, text: Seq<char>) -> bool {
    forall|i: int|
        0 <= i < raw.len() ==> (#[trigger] raw[i]) < byte_len(text) && (is_ascii_text(text) ==> raw[i]
            < text.len())
}

/// Collects the match positions of `text` for `query` with
/// `nucleo_matcher::pattern::Pattern::indices` (same pattern and matcher as
/// `fuzzy_score_of`). The result is `fuzzy_indices` of the two. nucleo
/// reports indices of matched characters of its haystack, which
/// `Utf32Str::new` makes the text's bytes when it is ASCII (or when its
/// grapheme clusters all start with an ASCII character) and its grapheme
/// clusters otherwise; so each index is below the text's byte length, and
/// below its character count for ASCII text.
#[verifier::external_body]
fn fuzzy_indices_of(query: &str, text: &str) -> (res: Option<Vec<u32>>)
    ensures
        match res {
            Some(v) => fuzzy_indices(query@, text@) == Some(v@) && indices_within(v@, text@),
            None => fuzzy_indices(query@, text@) is None,
        },
{
    let pattern = Pattern::parse(query, CaseMatching::Ignore, Normalization::Smart);
    let mut matcher = Matcher::new(Config::DEFAULT);
    let mut buf = Vec::new();
    let mut indices: Vec<u32> = Vec::new();
    match pattern.indices(Utf32Str::new(text, &mut buf), &mut matcher, &mut indices) {
        Some(_) => Some(indices),
        None => None,
    }
}

/// The ranking key of a row for `query`, or `None` when its search text does
/// not match. For an "Others" row the primary key is the score of the
/// detail column alone, the full-text score only breaks ties: a match in the
/// pane, tab or workspace columns never outranks one in the detail column.
pub open spec fn search_key(query: Seq<char>, v: DisplayView) -> Option<(u32, u32)> {
    match fuzzy_score(query, search_text_of(v)) {
        None => None,
        Some(full) => match v {
            DisplayView::Other { detail, .. } => Some(
                (
                    match fuzzy_score(query, detail) {
                        Some(d) => d,
                        None => 0,
                    },
                    full,
                ),
            ),
            _ => Some((full, 0)),
        },
    }
}

/// The ranking keys of rows for `query`.
pub open spec fn search_keys(query: Seq<char>, vs: Seq<DisplayView>) -> Seq<Option<(u32, u32)>> {
    Seq::new(vs.len(), |i: int| search_key(query, vs[i]))
}

/// Higher key first: by primary score, then by secondary score.
pub open spec fn key_gt(a: (u32, u32), b: (u32, u32)) -> bool {
    a.0 > b.0 || (a.0 == b.0 && a.1 > b.1)
}

/// The ranking order on scored rows.
pub open spec fn score_order() -> spec_fn(((u32, u32), DisplayView), ((u32, u32), DisplayView)) -> bool {
    |a: ((u32, u32), DisplayView), b: ((u32, u32), DisplayView)| key_gt(a.0, b.0)
}

/// The rows that have a key, with their keys, in row order.
pub open spec fn scored(vs: Seq<DisplayView>, keys: Seq<Option<(u32, u32)>>) -> Seq<((u32, u32), DisplayView)>
    decreases vs.len(),
{
    if vs.len() == 0 {
        seq![]
    } else {
        let prev = scored(vs.drop_last(), keys);
        match keys[vs.len() - 1] {
            Some(k) => prev.push((k, vs.last())),
            None => prev,
        }
    }
}

/// The rows of scored pairs.
pub open spec fn scored_rows(s: Seq<((u32, u32), DisplayView)>) -> Seq<DisplayView> {
    s.map_values(|p: ((u32, u32), DisplayView)| p.1)
}

/// The rows that have a key, highest key first; rows with equal keys keep
/// their order.
pub open spec fn ranked(vs: Seq<DisplayView>, keys: Seq<Option<(u32, u32)>>) -> Seq<DisplayView> {
    scored_rows(sort_by(scored(vs, keys), score_order()))
}

fn copy_strings(v: &Vec<String>) -> (res: Vec<String>)
    ensures
        res.deep_view() == v.deep_view(),
{
    let mut out: Vec<String> = Vec::new();
    let mut i: usize = 0;
    while i < v.len()
        invariant
            i <= v@.len(),
            out.deep_view() == v.deep_view().take(i as int),
        decreases v@.len() - i,
    {
        let ghost before = out.deep_view();
        let c = v[i].clone();
        assert(c@ == v.deep_view()[i as int]);
        out.push(c);
        assert(out.deep_view() =~= before.push(c@));
        assert(v.deep_view().take(i + 1) =~= v.deep_view().take(i as int).push(c@));
        i = i + 1;
    }
    assert(v.deep_view().take(v@.len() as int) =~= v.deep_view());
    out
}

fn copy_statuses(v: &Vec<AgentStatus>) -> (res: Vec<AgentStatus>)
    ensures
        res@ == v@,
{
    let mut out: Vec<AgentStatus> = Vec::new();
    let mut i: usize = 0;
    while i < v.len()
        invariant
            i <= v@.len(),
            out@ == v@.take(i as int),
        decreases v@.len() - i,
    {
        out.push(v[i]);
        assert(out@ =~= v@.take(i + 1));
        i = i + 1;
    }
    assert(v@.take(v@.len() as int) =~= v@);
    out
}

/// A copy of a row.
fn copy_item(it: &DisplayItem) -> (res: DisplayItem)
    ensures
        res.deep_view() == it.deep_view(),
{
    match it {
        DisplayItem::Workspace { name, id, pane_ids, agent_statuses, last_accessed_at } => DisplayItem::Workspace {
            name: name.clone(),
            id: id.clone(),
            pane_ids: copy_strings(pane_ids),
            agent_statuses: copy_statuses(agent_statuses),
            last_accessed_at: *last_accessed_at,
        },
        DisplayItem::Tab { name, workspace, tab_id, pane_ids, agent_statuses, last_accessed_at } => DisplayItem::Tab {
            name: name.clone(),
            workspace: workspace.clone(),
            tab_id: tab_id.clone(),
            pane_ids: copy_strings(pane_ids),
            agent_statuses: copy_statuses(agent_statuses),
            last_accessed_at: *last_accessed_at,
        },
        DisplayItem::Agent { agent_id, status, pane_id, tab, workspace, last_accessed_at } => DisplayItem::Agent {
            agent_id: agent_id.clone(),
            status: *status,
            pane_id: pane_id.clone(),
            tab: tab.clone(),
            workspace: workspace.clone(),
            last_accessed_at: *last_accessed_at,
        },
        DisplayItem::Pane { pane_id, pane_name, tab, workspace, agent_id, status, last_accessed_at } => DisplayItem::Pane {
            pane_id: pane_id.clone(),
            pane_name: pane_name.clone(),
            tab: tab.clone(),
            workspace: workspace.clone(),
            agent_id: clone_opt(agent_id),
            status: *status,
            last_accessed_at: *last_accessed_at,
        },
        DisplayItem::Other { pane_id, pane_name, tab, workspace, source, detail, context, last_accessed_at } =>
            DisplayItem::Other {
            pane_id: pane_id.clone(),
            pane_name: pane_name.clone(),
            tab: tab.clone(),
            workspace: workspace.clone(),
            source: *source,
            detail: detail.clone(),
            context: context.clone(),
            last_accessed_at: *last_accessed_at,
        },
    }
}

/// The first position in `keys` whose key `k` is strictly higher than.
fn rank_pos(keys: &Vec<(u32, u32)>, k: (u32, u32)) -> (p: usize)
    ensures
        p <= keys@.len(),
        forall|j: int| 0 <= j < p ==> !key_gt(k, #[trigger] keys@[j]),
        p < keys@.len() ==> key_gt(k, keys@[p as int]),
{
    let mut p: usize = 0;
    while p < keys.len()
        invariant
            p <= keys@.len(),
            forall|j: int| 0 <= j < p ==> !key_gt(k, #[trigger] keys@[j]),
        decreases keys@.len() - p,
    {
        let q = keys[p];
        if k.0 > q.0 || (k.0 == q.0 && k.1 > q.1) {
            return p;
        }
        p = p + 1;
    }
    p
}

/// Ranks rows by their keys: the rows that have a key, highest first, rows
/// with equal keys in their original order (a stable sort).
pub fn rank_items(items: &[DisplayItem], keys: &[Option<(u32, u32)>]) -> (res: Vec<DisplayItem>)
    requires
        items@.len() == keys@.len(),
    ensures
        res.deep_view() == ranked(items.deep_view(), keys@),
{
    let ghost vs = items.deep_view();
    let mut out: Vec<DisplayItem> = Vec::new();
    let mut out_keys: Vec<(u32, u32)> = Vec::new();
    let mut i: usize = 0;
    assert(out.deep_view() =~= scored_rows(sort_by(scored(vs.take(0), keys@), score_order())));
    while i < items.len()
        invariant
            i <= items@.len(),
            items@.len() == keys@.len(),
            vs == items.deep_view(),
            out_keys@.len() == out@.len(),
            sort_by(scored(vs.take(i as int), keys@), score_order()).len() == out@.len(),
            forall|j: int|
                0 <= j < out@.len() ==> #[trigger] sort_by(scored(vs.take(i as int), keys@), score_order())[j]
                    == (out_keys@[j], out.deep_view()[j]),
        decreases items@.len() - i,
    {
        let ghost sorted = sort_by(scored(vs.take(i as int), keys@), score_order());
        proof {
            let t = vs.take(i + 1);
            assert(t.drop_last() =~= vs.take(i as int));
            assert(t.last() == items@[i as int].deep_view());
        }
        match keys[i] {
            Some(k) => {
                let x = copy_item(&items[i]);
                let p = rank_pos(&out_keys, k);
                let ghost ov = out.deep_view();
                let ghost okv = out_keys@;
                proof {
                    let xv = (k, x.deep_view());
                    assert forall|j: int| 0 <= j < p implies !score_order()(xv, #[trigger] sorted[j]) by {
                        assert(sorted[j] == (okv[j], ov[j]));
                    }
                    if p < sorted.len() {
                        assert(sorted[p as int] == (okv[p as int], ov[p as int]));
                    }
                    lemma_insert_sorted_at(sorted, xv, score_order(), p as int);
                }
                out.insert(p, x);
                out_keys.insert(p, k);
                proof {
                    assert(out.deep_view() =~= ov.insert(p as int, x.deep_view()));
                    let next = sort_by(scored(vs.take(i + 1), keys@), score_order());
                    let sc = scored(vs.take(i + 1), keys@);
                    assert(sc == scored(vs.take(i as int), keys@).push((k, vs[i as int])));
                    assert(sc.drop_last() =~= scored(vs.take(i as int), keys@));
                    assert(sc.last() == (k, x.deep_view()));
                    assert(next == sorted.insert(p as int, (k, x.deep_view())));
                    assert forall|j: int| 0 <= j < out@.len() implies #[trigger] next[j] == (out_keys@[j], out.deep_view()[j]) by {
                        if j < p {
                            assert(next[j] == sorted[j]);
                        } else if j > p {
                            assert(next[j] == sorted[j - 1]);
                        }
                    }
                }
            },
            None => {
                proof {
                    assert(scored(vs.take(i + 1), keys@) == scored(vs.take(i as int), keys@));
                }
            },
        }
        i = i + 1;
    }
    proof {
        assert(vs.take(items@.len() as int) =~= vs);
        let sorted = sort_by(scored(vs, keys@), score_order());
        assert(out.deep_view() =~= scored_rows(sorted)) by {
            assert forall|j: int| 0 <= j < sorted.len() implies out.deep_view()[j] == #[trigger] scored_rows(sorted)[j] by {
                assert(sorted[j] == (out_keys@[j], out.deep_view()[j]));
            }
        }
    }
    out
}

/// Fuzzy-searches rows by their search text: with an empty query every row,
/// in order; otherwise the matching rows, best match first (see
/// `search_key`), rows that rank equally in their list order.
pub fn search_display_items(items: &[DisplayItem], query: &str) -> (res: Vec<DisplayItem>)
    ensures
        query@.len() == 0 ==> res.deep_view() == items.deep_view(),
        query@.len() > 0 ==> res.deep_view() == ranked(items.deep_view(), search_keys(query@, items.deep_view())),
{
    let ghost vs = items.deep_view();
    if query.is_empty() {
        let mut out: Vec<DisplayItem> = Vec::new();
        let mut i: usize = 0;
        while i < items.len()
            invariant
                i <= items@.len(),
                vs == items.deep_view(),
                out.deep_view() == vs.take(i as int),
            decreases items@.len() - i,
        {
            let x = copy_item(&items[i]);
            let ghost ov = out.deep_view();
            out.push(x);
            assert(out.deep_view() =~= ov.push(x.deep_view()));
            assert(vs.take(i + 1) =~= vs.take(i as int).push(vs[i as int]));
            i = i + 1;
        }
        assert(vs.take(items@.len() as int) =~= vs);
        return out;
    }
    let mut keys: Vec<Option<(u32, u32)>> = Vec::new();
    let mut i: usize = 0;
    while i < items.len()
        invariant
            i <= items@.len(),
            vs == items.deep_view(),
            keys@ == search_keys(query@, vs).take(i as int),
        decreases items@.len() - i,
    {
        let it = &items[i];
        let text = it.search_text();
        let k = match fuzzy_score_of(query, text.as_str()) {
            None => None,
            Some(full) => match it {
                DisplayItem::Other { detail, .. } => {
                    let d = match fuzzy_score_of(query, detail.as_str()) {
                        Some(d) => d,
                        None => 0,
                    };
                    Some((d, full))
                },
                _ => Some((full, 0)),
            },
        };
        keys.push(k);
        assert(keys@ =~= search_keys(query@, vs).take(i + 1));
        i = i + 1;
    }
    assert(search_keys(query@, vs).take(items@.len() as int) =~= search_keys(query@, vs));
    rank_items(items, keys.as_slice())
}

/// The values of `raw` as positions.
pub open spec fn positions(raw: Seq<u32>) -> Seq<usize> {
    raw.map_values(|x: u32| x as usize)
}

/// `pos` lists the distinct values of `raw`, in increasing order.
pub open spec fn sorted_distinct(pos: Seq<usize>, raw: Seq<u32>) -> bool {
    &&& forall|i: int, j: int| 0 <= i < j < pos.len() ==> pos[i] < pos[j]
    &&& pos.to_set() == positions(raw).to_set()
}

/// Appending a value to `raw` adds it to the set of positions.
proof fn lemma_positions_push(t: Seq<u32>)
    requires
        t.len() > 0,
    ensures
        positions(t).to_set() == positions(t.drop_last()).to_set().insert(t.last() as usize),
{
    let d = t.drop_last();
    assert(positions(t) =~= positions(d).push(t.last() as usize));
    assert(positions(d).push(t.last() as usize).to_set() =~= positions(d).to_set().insert(t.last() as usize)) by {
        let a = positions(d);
        let x = t.last() as usize;
        assert forall|y: usize| a.push(x).contains(y) implies a.to_set().insert(x).contains(y) by {
            let m = choose|m: int| 0 <= m < a.push(x).len() && a.push(x)[m] == y;
            if m < a.len() {
                assert(a[m] == y);
            }
        }
        assert forall|y: usize| a.to_set().insert(x).contains(y) implies a.push(x).contains(y) by {
            if y == x {
                assert(a.push(x)[a.len() as int] == y);
            } else {
                let m = choose|m: int| 0 <= m < a.len() && a[m] == y;
                assert(a.push(x)[m] == y);
            }
        }
    }
}

/// A value already listed keeps the list complete.
proof fn lemma_distinct_seen(before: Seq<usize>, t: Seq<u32>, p: int)
    requires
        t.len() > 0,
        sorted_distinct(before, t.drop_last()),
        0 <= p < before.len(),
        before[p] == t.last(),
    ensures
        sorted_distinct(before, t),
{
    lemma_positions_push(t);
    assert(before.contains(before[p]));
    assert(before.to_set() =~= before.to_set().insert(t.last() as usize));
}

/// Inserting a new value at its place keeps the list sorted and complete.
proof fn lemma_distinct_insert(before: Seq<usize>, t: Seq<u32>, p: int)
    requires
        t.len() > 0,
        sorted_distinct(before, t.drop_last()),
        0 <= p <= before.len(),
        forall|j: int| 0 <= j < p ==> before[j] < t.last(),
        p < before.len() ==> before[p] > t.last(),
    ensures
        sorted_distinct(before.insert(p, t.last() as usize), t),
{
    let r = t.last() as usize;
    let out = before.insert(p, r);
    lemma_positions_push(t);
    assert forall|a: int, b: int| 0 <= a < b < out.len() implies out[a] < out[b] by {
        if b < p {
        } else if a < p && b == p {
        } else if a < p {
            assert(out[b] == before[b - 1]);
            if b - 1 > p {
                assert(before[p] < before[b - 1]);
            }
        } else if a == p {
            assert(out[b] == before[b - 1]);
            if b - 1 > p {
                assert(before[p] < before[b - 1]);
            }
        } else {
            assert(out[a] == before[a - 1] && out[b] == before[b - 1]);
        }
    }
    assert(out.to_set() =~= before.to_set().insert(r)) by {
        assert forall|y: usize| out.contains(y) implies before.to_set().insert(r).contains(y) by {
            let m = choose|m: int| 0 <= m < out.len() && out[m] == y;
            if m < p {
                assert(before[m] == y);
            } else if m > p {
                assert(before[m - 1] == y);
            }
        }
        assert forall|y: usize| before.to_set().insert(r).contains(y) implies out.contains(y) by {
            if y == r {
                assert(out[p] == y);
            } else {
                let m = choose|m: int| 0 <= m < before.len() && before[m] == y;
                if m < p {
                    assert(out[m] == y);
                } else {
                    assert(out[m + 1] == y);
                }
            }
        }
    }
}

/// The distinct positions among `raw`, in increasing order.
pub fn sorted_positions(raw: &[u32]) -> (res: Vec<usize>)
    ensures
        sorted_distinct(res@, raw@),
{
    let mut out: Vec<usize> = Vec::new();
    let mut i: usize = 0;
    assert(out@.to_set() =~= positions(raw@.take(0)).to_set());
    while i < raw.len()
        invariant
            i <= raw@.len(),
            sorted_distinct(out@, raw@.take(i as int)),
        decreases raw@.len() - i,
    {
        let r = raw[i] as usize;
        let mut p: usize = 0;
        while p < out.len() && out[p] < r
            invariant
                p <= out@.len(),
                i < raw@.len(),
                r == raw@[i as int],
                sorted_distinct(out@, raw@.take(i as int)),
                forall|j: int| 0 <= j < p ==> out@[j] < r,
            decreases out@.len() - p,
        {
            p = p + 1;
        }
        let ghost before = out@;
        let ghost t = raw@.take(i + 1);
        proof {
            assert(raw@.take(i as int) =~= t.drop_last());
            assert(t.last() == raw@[i as int]);
        }
        if p < out.len() && out[p] == r {
            proof {
                lemma_distinct_seen(before, t, p as int);
            }
        } else {
            out.insert(p, r);
            proof {
                lemma_distinct_insert(before, t, p as int);
            }
        }
        i = i + 1;
    }
    assert(raw@.take(raw@.len() as int) =~= raw@);
    out
}

/// The positions of `text` that match `query`, sorted and without
/// duplicates, for highlighting; empty for an empty query or no match. The
/// same case-insensitive matcher as row ranking is used, so a highlighted
/// row always shows its hits whatever their case. Positions count
/// characters for ASCII text; nucleo counts grapheme clusters in other
/// text, or bytes where every cluster starts with an ASCII character, so a
/// position is always below the text's byte length.
pub fn match_indices(text: &str, query: &str) -> (res: Vec<usize>)
    ensures
        query@.len() == 0 ==> res@.len() == 0,
        query@.len() > 0 ==> match fuzzy_indices(query@, text@) {
            Some(raw) => sorted_distinct(res@, raw),
            None => res@.len() == 0,
        },
        forall|i: int|
            0 <= i < res@.len() ==> (#[trigger] res@[i]) < byte_len(text@) && (is_ascii_text(text@) ==> res@[i]
                < text@.len()),
{
    if query.is_empty() {
        return Vec::new();
    }
    match fuzzy_indices_of(query, text) {
        Some(raw) => {
            let res = sorted_positions(raw.as_slice());
            proof {
                assert forall|i: int| 0 <= i < res@.len() implies (#[trigger] res@[i]) < byte_len(text@) && (
                is_ascii_text(text@) ==> res@[i] < text@.len()) by {
                    assert(res@.to_set().contains(res@[i]));
                    assert(positions(raw@).to_set().contains(res@[i]));
                    assert(positions(raw@).contains(res@[i]));
                    let j = choose|j: int| 0 <= j < positions(raw@).len() && positions(raw@)[j] == res@[i];
                    assert(positions(raw@)[j] == raw@[j] as usize);
                    assert(raw@[j] < byte_len(text@));
                }
            }
            res
        },
        None => Vec::new(),
    }
}

// ── Active-only filter ──

/// An agent status that asks for attention: blocked or done.
pub open spec fn needs_attention(st: AgentStatus) -> bool {
    st == AgentStatus::Blocked || st == AgentStatus::Done
}

/// Some status of the list asks for attention.
pub open spec fn any_needs_attention(sts: Seq<AgentStatus>) -> bool {
    exists|i: int| 0 <= i < sts.len() && needs_attention(#[trigger] sts[i])
}

/// A row passes the active-only filter: it shows an agent, or for a
/// workspace or tab holds one, that is blocked or done.
pub open spec fn row_needs_attention(v: DisplayView) -> bool {
    match v {
        DisplayView::Workspace { agent_statuses, .. } => any_needs_attention(agent_statuses),
        DisplayView::Tab { agent_statuses, .. } => any_needs_attention(agent_statuses),
        DisplayView::Agent { status, .. } => needs_attention(status),
        DisplayView::Pane { agent_id, status, .. } => agent_id is Some && needs_attention(status),
        DisplayView::Other { .. } => false,
    }
}

/// The rows of `vs` that pass the active-only filter, in order.
pub open spec fn attention_rows(vs: Seq<DisplayView>) -> Seq<DisplayView>
    decreases vs.len(),
{
    if vs.len() == 0 {
        seq![]
    } else if row_needs_attention(vs.last()) {
        attention_rows(vs.drop_last()).push(vs.last())
    } else {
        attention_rows(vs.drop_last())
    }
}

fn status_needs_attention(st: AgentStatus) -> (res: bool)
    ensures
        res == needs_attention(st),
{
    match st {
        AgentStatus::Blocked => true,
        AgentStatus::Done => true,
        _ => false,
    }
}

fn any_status_needs_attention(sts: &Vec<AgentStatus>) -> (res: bool)
    ensures
        res == any_needs_attention(sts@),
{
    let mut i: usize = 0;
    while i < sts.len()
        invariant
            i <= sts@.len(),
            forall|j: int| 0 <= j < i ==> !needs_attention(#[trigger] sts@[j]),
        decreases sts@.len() - i,
    {
        if status_needs_attention(sts[i]) {
            return true;
        }
        i = i + 1;
    }
    false
}

fn item_needs_attention(it: &DisplayItem) -> (res: bool)
    ensures
        res == row_needs_attention(it.deep_view()),
{
    match it {
        DisplayItem::Workspace { agent_statuses, .. } => any_status_needs_attention(agent_statuses),
        DisplayItem::Tab { agent_statuses, .. } => any_status_needs_attention(agent_statuses),
        DisplayItem::Agent { status, .. } => status_needs_attention(*status),
        DisplayItem::Pane { agent_id, status, .. } => agent_id.is_some() && status_needs_attention(*status),
        DisplayItem::Other { .. } => false,
    }
}

/// The active-only filter: the rows whose agent (or, for a workspace or
/// tab, one of whose agents) is blocked or done, in order.
pub fn filter_active_only(items: &[DisplayItem]) -> (res: Vec<DisplayItem>)
    ensures
        res.deep_view() == attention_rows(items.deep_view()),
{
    let ghost vs = items.deep_view();
    let mut out: Vec<DisplayItem> = Vec::new();
    let mut i: usize = 0;
    assert(vs.take(0) =~= Seq::<DisplayView>::empty());
    while i < items.len()
        invariant
            i <= items@.len(),
            vs == items.deep_view(),
            out.deep_view() == attention_rows(vs.take(i as int)),
        decreases items@.len() - i,
    {
        proof {
            assert(vs.take(i + 1).drop_last() =~= vs.take(i as int));
            assert(vs.take(i + 1).last() == items@[i as int].deep_view());
        }
        if item_needs_attention(&items[i]) {
            let x = copy_item(&items[i]);
            push_item(&mut out, x);
        }
        i = i + 1;
    }
    assert(vs.take(items@.len() as int) =~= vs);
    out
}

} // verus!
