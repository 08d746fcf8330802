//! Properties of the navigator that span several calls or hold of every
//! list it builds.

use vstd::prelude::*;
use crate::app::{target_of, filter_after, index_down, index_up, query_after, refreshed, toggles_active_only, types_char};
use crate::models::{AgentStatus, FocusView, search_text_of, AppState, CategoryTab, DisplayView, KeyCode, KeyModifiers, KeyPress, NodeView, index_of,
    lemma_index_of_bounds, next_tab, previous_tab};
use crate::others::{apply_ssh_opt, first_word, ssh_scan, ssh_target, ssh_value_letter};
use crate::text::{is_ws, lemma_run_len_bounds, run_len, words};
use crate::herdr::{status_of, AgentStatusWire};
use crate::session::{track_outcome, TrackView};
use crate::tracker::MruKind;
use crate::order::{is_strict_order, lemma_sort_by_distinct_keys, lemma_sort_by_multiset, lemma_sort_by_sorted, sort_by};
use crate::mru::{
    fuzzy_score, OptionsView, attention_rows, key_gt, ranked, row_needs_attention, score_order, scored, scored_rows,
    search_key, search_keys, mru_order, agent_rows, display_rows, group_key, group_rows, grouped, key_index, lemma_key_index, lemma_mru_sorted,
    level_id, merged_tab_ts, mru_sorted, other_rows, pane_excluded, pane_other_rows, pane_rows, tab_rows,
    ts_in, workspace_rows,
};

verus! {

// ── Category tabs ──

/// No tab is enabled twice.
pub open spec fn distinct_tabs(cats: Seq<CategoryTab>) -> bool {
    forall|i: int, j: int| 0 <= i < j < cats.len() ==> cats[i] != cats[j]
}

/// In a list of distinct tabs, the index of the tab at `k` is `k`.
proof fn lemma_index_of_distinct(cats: Seq<CategoryTab>, k: int)
    requires
        distinct_tabs(cats),
        0 <= k < cats.len(),
    ensures
        index_of(cats, cats[k]) == Some(k),
{
    lemma_index_of_bounds(cats, cats[k]);
    match index_of(cats, cats[k]) {
        Some(i) => {
            if i < k {
                assert(cats[i] != cats[k]);
            } else if i > k {
                assert(cats[k] != cats[i]);
            }
        },
        None => {
            assert(cats.contains(cats[k]));
        },
    }
}

/// Tab then Shift+Tab, or Shift+Tab then Tab, comes back to the enabled tab
/// one started on.
pub proof fn lemma_tab_backtab_inverse(cats: Seq<CategoryTab>, t: CategoryTab)
    requires
        distinct_tabs(cats),
        cats.contains(t),
    ensures
        previous_tab(cats, next_tab(cats, t)) == t,
        next_tab(cats, previous_tab(cats, t)) == t,
{
    let n = cats.len() as int;
    let k = choose|k: int| 0 <= k < n && cats[k] == t;
    lemma_index_of_distinct(cats, k);
    let nx = (k + 1) % n;
    let pv = (k + n - 1) % n;
    assert(0 <= nx < n && 0 <= pv < n) by {
        vstd::arithmetic::div_mod::lemma_mod_bound(k + 1, n);
        vstd::arithmetic::div_mod::lemma_mod_bound(k + n - 1, n);
    }
    lemma_index_of_distinct(cats, nx);
    lemma_index_of_distinct(cats, pv);
    if k + 1 < n {
        vstd::arithmetic::div_mod::lemma_small_mod((k + 1) as nat, n as nat);
        vstd::arithmetic::div_mod::lemma_mod_add_multiples_vanish(k, n);
        vstd::arithmetic::div_mod::lemma_small_mod(k as nat, n as nat);
        assert((nx + n - 1) % n == k);
    } else {
        vstd::arithmetic::div_mod::lemma_mod_self_0(n);
        vstd::arithmetic::div_mod::lemma_small_mod((n - 1) as nat, n as nat);
        assert((nx + n - 1) % n == k);
    }
    if k > 0 {
        vstd::arithmetic::div_mod::lemma_mod_add_multiples_vanish(k - 1, n);
        vstd::arithmetic::div_mod::lemma_small_mod((k - 1) as nat, n as nat);
        vstd::arithmetic::div_mod::lemma_small_mod(k as nat, n as nat);
        assert((pv + 1) % n == k);
    } else {
        vstd::arithmetic::div_mod::lemma_small_mod((n - 1) as nat, n as nat);
        vstd::arithmetic::div_mod::lemma_mod_self_0(n);
        assert((pv + 1) % n == k);
    }
}

/// The tab reached from `t` by `k` presses of Tab.
pub open spec fn tab_after_presses(cats: Seq<CategoryTab>, t: CategoryTab, k: nat) -> CategoryTab
    decreases k,
{
    if k == 0 {
        t
    } else {
        next_tab(cats, tab_after_presses(cats, t, (k - 1) as nat))
    }
}

proof fn lemma_presses_index(cats: Seq<CategoryTab>, start: int, k: nat)
    requires
        distinct_tabs(cats),
        0 <= start < cats.len(),
    ensures
        tab_after_presses(cats, cats[start], k) == cats[(start + k) % (cats.len() as int)],
    decreases k,
{
    let n = cats.len() as int;
    if k == 0 {
        vstd::arithmetic::div_mod::lemma_small_mod(start as nat, n as nat);
    } else {
        lemma_presses_index(cats, start, (k - 1) as nat);
        let p = (start + k - 1) % n;
        vstd::arithmetic::div_mod::lemma_mod_bound(start + k - 1, n);
        lemma_index_of_distinct(cats, p);
        vstd::arithmetic::div_mod::lemma_add_mod_noop(start + k - 1, 1, n);
        if n == 1 {
            vstd::arithmetic::div_mod::lemma_mod_self_0(1);
            assert((p + 1) % n == (start + k) % n) by {
                vstd::arithmetic::div_mod::lemma_mod_bound(p + 1, 1);
                vstd::arithmetic::div_mod::lemma_mod_bound(start + k, 1);
            }
        } else {
            vstd::arithmetic::div_mod::lemma_small_mod(1, n as nat);
            assert((p + 1) % n == (start + k) % n);
        }
    }
}

/// Pressing Tab as many times as there are enabled tabs cycles back to the
/// tab one started on.
pub proof fn lemma_tab_cycle(cats: Seq<CategoryTab>, t: CategoryTab)
    requires
        distinct_tabs(cats),
        cats.contains(t),
    ensures
        tab_after_presses(cats, t, cats.len()) == t,
{
    let n = cats.len() as int;
    let k = choose|k: int| 0 <= k < n && cats[k] == t;
    lemma_presses_index(cats, k, cats.len());
    vstd::arithmetic::div_mod::lemma_mod_add_multiples_vanish(k, n);
    vstd::arithmetic::div_mod::lemma_small_mod(k as nat, n as nat);
}

// ── Selection ──

/// Moving down then up, or up then down, in a non-empty list comes back to
/// the selected row; the selection stays within the list either way.
pub proof fn lemma_down_up_inverse(idx: usize, len: usize)
    requires
        idx < len,
    ensures
        index_up(index_down(idx, len), len) == idx,
        index_down(index_up(idx, len), len) == idx,
        index_down(idx, len) < len,
        index_up(idx, len) < len,
{
}

// ── Search query ──

/// Typing a character and then pressing Backspace leaves the search query
/// as it was.
pub proof fn lemma_type_then_backspace(query: Seq<char>, c: char, m: KeyModifiers)
    requires
        m == KeyModifiers::none_spec() || m == (KeyModifiers { control: false, shift: true, alt: false, extra: false }),
    ensures
        query_after(
            query_after(query, KeyPress { code: KeyCode::Char(c), modifiers: m }),
            KeyPress { code: KeyCode::Backspace, modifiers: KeyModifiers::none_spec() },
        ) == query,
{
    let k = KeyPress { code: KeyCode::Char(c), modifiers: m };
    assert(types_char(k));
    assert(query.push(c).drop_last() =~= query);
}

// ── Exclusions ──

/// A row may be listed under the options: it is not the current workspace,
/// the current tab, the previously focused pane or the navigator's own pane.
pub open spec fn row_allowed(r: DisplayView, o: OptionsView) -> bool {
    match r {
        DisplayView::Workspace { id, .. } => o.active_workspace_id != Some(id),
        DisplayView::Tab { tab_id, .. } => o.active_tab_id != Some(tab_id),
        DisplayView::Agent { pane_id, .. } => !pane_excluded(pane_id, o.active_pane_id, o.self_pane_id),
        DisplayView::Pane { pane_id, .. } => !pane_excluded(pane_id, o.active_pane_id, o.self_pane_id),
        DisplayView::Other { pane_id, .. } => !pane_excluded(pane_id, o.active_pane_id, o.self_pane_id),
    }
}

/// Every row of `s` may be listed.
pub open spec fn all_allowed(s: Seq<DisplayView>, o: OptionsView) -> bool {
    forall|j: int| 0 <= j < s.len() ==> row_allowed(#[trigger] s[j], o)
}

proof fn lemma_sorted_allowed(s: Seq<DisplayView>, o: OptionsView)
    requires
        all_allowed(s, o),
    ensures
        all_allowed(mru_sorted(s), o),
{
    broadcast use vstd::seq_lib::group_to_multiset_ensures;

    lemma_mru_sorted(s);
    let r = mru_sorted(s);
    assert forall|j: int| 0 <= j < r.len() implies row_allowed(#[trigger] r[j], o) by {
        assert(r.contains(r[j]));
        assert(r.to_multiset().count(r[j]) > 0);
        assert(s.contains(r[j]));
        let i = choose|i: int| 0 <= i < s.len() && s[i] == r[j];
        assert(row_allowed(s[i], o));
    }
}

proof fn lemma_pane_rows_allowed(ns: Seq<NodeView>, o: OptionsView)
    ensures
        all_allowed(pane_rows(ns, o.pane_ts, o.active_pane_id, o.self_pane_id), o),
    decreases ns.len(),
{
    if ns.len() > 0 {
        lemma_pane_rows_allowed(ns.drop_last(), o);
    }
}

proof fn lemma_agent_rows_allowed(ns: Seq<NodeView>, o: OptionsView)
    ensures
        all_allowed(agent_rows(ns, o.pane_ts, o.active_pane_id, o.self_pane_id), o),
    decreases ns.len(),
{
    if ns.len() > 0 {
        lemma_agent_rows_allowed(ns.drop_last(), o);
    }
}

proof fn lemma_other_rows_allowed(ns: Seq<NodeView>, o: OptionsView)
    ensures
        all_allowed(other_rows(ns, o.pane_ts, o.active_pane_id, o.self_pane_id, o.others), o),
    decreases ns.len(),
{
    if ns.len() > 0 {
        let p = ns.drop_last();
        lemma_other_rows_allowed(p, o);
        let n = ns.last();
        if !(n.agent_id is Some || pane_excluded(n.pane_id, o.active_pane_id, o.self_pane_id)
            || !o.others.contains_key(n.pane_id)) {
            let prev = other_rows(p, o.pane_ts, o.active_pane_id, o.self_pane_id, o.others);
            let mine = pane_other_rows(n, o.others[n.pane_id].deep_view(), ts_in(o.pane_ts, n.pane_id));
            assert forall|j: int| 0 <= j < mine.len() implies row_allowed(#[trigger] mine[j], o) by {
                assert(mine[j] matches DisplayView::Other { pane_id, .. } && pane_id == n.pane_id);
            }
            assert forall|j: int| 0 <= j < (prev + mine).len() implies row_allowed(#[trigger] (prev + mine)[j], o) by {
                if j < prev.len() {
                    assert((prev + mine)[j] == prev[j]);
                } else {
                    assert((prev + mine)[j] == mine[j - prev.len()]);
                }
            }
        }
    }
}

/// A group may be listed: for workspaces (`tabs == false`) a workspace row
/// that is not the excluded workspace, for tabs a tab row that is not the
/// excluded tab.
pub open spec fn group_allowed(v: DisplayView, exclude: Option<Seq<char>>, tabs: bool) -> bool {
    if tabs {
        v matches DisplayView::Tab { tab_id, .. } && exclude != Some(tab_id)
    } else {
        v matches DisplayView::Workspace { id, .. } && exclude != Some(id)
    }
}

proof fn lemma_grouped_allowed(ns: Seq<NodeView>, ts: Map<Seq<char>, u64>, exclude: Option<Seq<char>>, tabs: bool)
    ensures
        forall|j: int|
            0 <= j < grouped(ns, ts, exclude, tabs).len() ==> group_allowed(
                (#[trigger] grouped(ns, ts, exclude, tabs)[j]).1,
                exclude,
                tabs,
            ),
    decreases ns.len(),
{
    if ns.len() > 0 {
        lemma_grouped_allowed(ns.drop_last(), ts, exclude, tabs);
        let prev = grouped(ns.drop_last(), ts, exclude, tabs);
        let g = grouped(ns, ts, exclude, tabs);
        let n = ns.last();
        if exclude != Some(level_id(n, tabs)) {
            let k = group_key(n, tabs);
            let t = ts_in(ts, level_id(n, tabs));
            lemma_key_index(prev, k);
            match key_index(prev, k) {
                Some(i) => {
                    assert forall|j: int| 0 <= j < g.len() implies group_allowed((#[trigger] g[j]).1, exclude, tabs) by {
                        if j != i {
                            assert(g[j] == prev[j]);
                        } else {
                            assert(group_allowed(prev[i].1, exclude, tabs));
                        }
                    }
                },
                None => {
                    assert forall|j: int| 0 <= j < g.len() implies group_allowed((#[trigger] g[j]).1, exclude, tabs) by {
                        if j < prev.len() {
                            assert(g[j] == prev[j]);
                        }
                    }
                },
            }
        }
    }
}

proof fn lemma_group_rows_allowed(ns: Seq<NodeView>, o: OptionsView, tabs: bool, ts: Map<Seq<char>, u64>)
    ensures
        all_allowed(group_rows(grouped(ns, ts, if tabs { o.active_tab_id } else { o.active_workspace_id }, tabs)), o),
{
    let ex = if tabs {
        o.active_tab_id
    } else {
        o.active_workspace_id
    };
    lemma_grouped_allowed(ns, ts, ex, tabs);
    let gs = grouped(ns, ts, ex, tabs);
    assert forall|j: int| 0 <= j < group_rows(gs).len() implies row_allowed(#[trigger] group_rows(gs)[j], o) by {
        assert(group_rows(gs)[j] == gs[j].1);
        assert(group_allowed(gs[j].1, ex, tabs));
    }
}

/// No category list shows what it excludes: Workspaces never the current
/// workspace, Tabs never the current tab, Panes, Agents and Others never
/// the previously focused pane nor the navigator's own pane (and All,
/// listing those rows, none of them either).
pub proof fn lemma_display_list_excludes(ns: Seq<NodeView>, o: OptionsView, category: CategoryTab)
    ensures
        all_allowed(display_rows(ns, o, category), o),
{
    let merged = merged_tab_ts(ns, o.tab_ts, o.pane_ts);
    lemma_group_rows_allowed(ns, o, false, o.ws_ts);
    lemma_group_rows_allowed(ns, o, true, merged);
    lemma_pane_rows_allowed(ns, o);
    lemma_agent_rows_allowed(ns, o);
    lemma_other_rows_allowed(ns, o);
    let ws = workspace_rows(ns, o.ws_ts, o.active_workspace_id);
    let tb = tab_rows(ns, merged, o.active_tab_id);
    let ag = agent_rows(ns, o.pane_ts, o.active_pane_id, o.self_pane_id);
    let pa = pane_rows(ns, o.pane_ts, o.active_pane_id, o.self_pane_id);
    let ot = other_rows(ns, o.pane_ts, o.active_pane_id, o.self_pane_id, o.others);
    lemma_sorted_allowed(ws, o);
    lemma_sorted_allowed(tb, o);
    lemma_sorted_allowed(ag, o);
    lemma_sorted_allowed(pa, o);
    lemma_sorted_allowed(ot, o);
    if category == CategoryTab::All {
        let all = mru_sorted(ws) + mru_sorted(tb) + mru_sorted(pa) + mru_sorted(ag);
        assert forall|j: int| 0 <= j < all.len() implies row_allowed(#[trigger] all[j], o) by {
            let a = mru_sorted(ws);
            let b = mru_sorted(tb);
            let c = mru_sorted(pa);
            let d = mru_sorted(ag);
            if j < a.len() {
                assert(all[j] == a[j]);
            } else if j < a.len() + b.len() {
                assert(all[j] == b[j - a.len()]);
            } else if j < a.len() + b.len() + c.len() {
                assert(all[j] == c[j - a.len() - b.len()]);
            } else {
                assert(all[j] == d[j - a.len() - b.len() - c.len()]);
            }
        }
    }
}

// ── Agents and Others ──

/// The row shows a pane of the nodes that runs an agent (`agents`) or runs
/// none (`!agents`).
pub open spec fn row_of_pane_kind(r: DisplayView, ns: Seq<NodeView>, agents: bool) -> bool {
    match r {
        DisplayView::Agent { pane_id, .. } => exists|i: int|
            0 <= i < ns.len() && (#[trigger] ns[i]).pane_id == pane_id && (ns[i].agent_id is Some) == agents,
        DisplayView::Other { pane_id, .. } => exists|i: int|
            0 <= i < ns.len() && (#[trigger] ns[i]).pane_id == pane_id && (ns[i].agent_id is Some) == agents,
        _ => false,
    }
}

proof fn lemma_agent_rows_from_agents(ns: Seq<NodeView>, o: OptionsView)
    ensures
        forall|j: int|
            0 <= j < agent_rows(ns, o.pane_ts, o.active_pane_id, o.self_pane_id).len() ==> row_of_pane_kind(
                #[trigger] agent_rows(ns, o.pane_ts, o.active_pane_id, o.self_pane_id)[j],
                ns,
                true,
            ),
    decreases ns.len(),
{
    if ns.len() > 0 {
        let p = ns.drop_last();
        lemma_agent_rows_from_agents(p, o);
        let rows = agent_rows(ns, o.pane_ts, o.active_pane_id, o.self_pane_id);
        let prev = agent_rows(p, o.pane_ts, o.active_pane_id, o.self_pane_id);
        assert forall|j: int| 0 <= j < rows.len() implies row_of_pane_kind(#[trigger] rows[j], ns, true) by {
            if j < prev.len() {
                assert(rows[j] == prev[j]);
                assert(row_of_pane_kind(prev[j], p, true));
                if let DisplayView::Agent { pane_id, .. } = prev[j] {
                    let i = choose|i: int| 0 <= i < p.len() && (#[trigger] p[i]).pane_id == pane_id && (p[i].agent_id is Some) == true;
                    assert(ns[i] == p[i]);
                }
            } else {
                assert(ns[ns.len() - 1] == ns.last());
            }
        }
    }
}

proof fn lemma_other_rows_from_plain_panes(ns: Seq<NodeView>, o: OptionsView)
    ensures
        forall|j: int|
            0 <= j < other_rows(ns, o.pane_ts, o.active_pane_id, o.self_pane_id, o.others).len() ==> row_of_pane_kind(
                #[trigger] other_rows(ns, o.pane_ts, o.active_pane_id, o.self_pane_id, o.others)[j],
                ns,
                false,
            ),
    decreases ns.len(),
{
    if ns.len() > 0 {
        let p = ns.drop_last();
        lemma_other_rows_from_plain_panes(p, o);
        let rows = other_rows(ns, o.pane_ts, o.active_pane_id, o.self_pane_id, o.others);
        let prev = other_rows(p, o.pane_ts, o.active_pane_id, o.self_pane_id, o.others);
        let n = ns.last();
        assert forall|j: int| 0 <= j < rows.len() implies row_of_pane_kind(#[trigger] rows[j], ns, false) by {
            if j < prev.len() {
                assert(rows[j] == prev[j]);
                assert(row_of_pane_kind(prev[j], p, false));
                if let DisplayView::Other { pane_id, .. } = prev[j] {
                    let i = choose|i: int| 0 <= i < p.len() && (#[trigger] p[i]).pane_id == pane_id && (p[i].agent_id is Some) == false;
                    assert(ns[i] == p[i]);
                }
            } else {
                let mine = pane_other_rows(n, o.others[n.pane_id].deep_view(), ts_in(o.pane_ts, n.pane_id));
                assert(rows[j] == mine[j - prev.len()]);
                assert(mine[j - prev.len()] matches DisplayView::Other { pane_id, .. } && pane_id == n.pane_id);
                assert(ns[ns.len() - 1] == n);
            }
        }
    }
}

proof fn lemma_sorted_kind(s: Seq<DisplayView>, ns: Seq<NodeView>, agents: bool)
    requires
        forall|j: int| 0 <= j < s.len() ==> row_of_pane_kind(#[trigger] s[j], ns, agents),
    ensures
        forall|j: int| 0 <= j < mru_sorted(s).len() ==> row_of_pane_kind(#[trigger] mru_sorted(s)[j], ns, agents),
{
    broadcast use vstd::seq_lib::group_to_multiset_ensures;

    lemma_mru_sorted(s);
    let r = mru_sorted(s);
    assert forall|j: int| 0 <= j < r.len() implies row_of_pane_kind(#[trigger] r[j], ns, agents) by {
        assert(r.contains(r[j]));
        assert(r.to_multiset().count(r[j]) > 0);
        assert(s.contains(r[j]));
        let i = choose|i: int| 0 <= i < s.len() && s[i] == r[j];
        assert(row_of_pane_kind(s[i], ns, agents));
    }
}

/// The Agents list shows only panes that run an agent, and the Others list
/// only panes that run none.
pub proof fn lemma_agents_and_others(ns: Seq<NodeView>, o: OptionsView)
    ensures
        forall|j: int|
            0 <= j < display_rows(ns, o, CategoryTab::Agents).len() ==> row_of_pane_kind(
                #[trigger] display_rows(ns, o, CategoryTab::Agents)[j],
                ns,
                true,
            ),
        forall|j: int|
            0 <= j < display_rows(ns, o, CategoryTab::Others).len() ==> row_of_pane_kind(
                #[trigger] display_rows(ns, o, CategoryTab::Others)[j],
                ns,
                false,
            ),
{
    lemma_agent_rows_from_agents(ns, o);
    lemma_other_rows_from_plain_panes(ns, o);
    lemma_sorted_kind(agent_rows(ns, o.pane_ts, o.active_pane_id, o.self_pane_id), ns, true);
    lemma_sorted_kind(other_rows(ns, o.pane_ts, o.active_pane_id, o.self_pane_id, o.others), ns, false);
}

// ── Workspaces ──

/// The workspace a Workspaces row stands for.
pub open spec fn ws_row_id(v: DisplayView) -> Seq<char> {
    match v {
        DisplayView::Workspace { id, .. } => id,
        _ => seq![],
    }
}

proof fn lemma_ws_groups_distinct(ns: Seq<NodeView>, ts: Map<Seq<char>, u64>, exclude: Option<Seq<char>>)
    ensures
        forall|j: int|
            0 <= j < grouped(ns, ts, exclude, false).len() ==> (#[trigger] grouped(ns, ts, exclude, false)[j]).1 is Workspace
                && ws_row_id(grouped(ns, ts, exclude, false)[j].1) == grouped(ns, ts, exclude, false)[j].0,
        forall|i: int, j: int|
            0 <= i < j < grouped(ns, ts, exclude, false).len() ==> (#[trigger] grouped(ns, ts, exclude, false)[i]).0
                != (#[trigger] grouped(ns, ts, exclude, false)[j]).0,
    decreases ns.len(),
{
    if ns.len() > 0 {
        lemma_ws_groups_distinct(ns.drop_last(), ts, exclude);
        let prev = grouped(ns.drop_last(), ts, exclude, false);
        let g = grouped(ns, ts, exclude, false);
        let n = ns.last();
        if exclude != Some(level_id(n, false)) {
            let k = group_key(n, false);
            lemma_key_index(prev, k);
            match key_index(prev, k) {
                Some(c) => {
                    assert forall|j: int| 0 <= j < g.len() implies (#[trigger] g[j]).1 is Workspace && ws_row_id(g[j].1)
                        == g[j].0 by {
                        if j != c {
                            assert(g[j] == prev[j]);
                        }
                    }
                    assert forall|i: int, j: int| 0 <= i < j < g.len() implies (#[trigger] g[i]).0 != (#[trigger] g[j]).0 by {
                        assert(g[i].0 == prev[i].0 && g[j].0 == prev[j].0);
                    }
                },
                None => {
                    assert forall|j: int| 0 <= j < g.len() implies (#[trigger] g[j]).1 is Workspace && ws_row_id(g[j].1)
                        == g[j].0 by {
                        if j < prev.len() {
                            assert(g[j] == prev[j]);
                        }
                    }
                    assert forall|i: int, j: int| 0 <= i < j < g.len() implies (#[trigger] g[i]).0 != (#[trigger] g[j]).0 by {
                        if j < prev.len() {
                            assert(g[i] == prev[i] && g[j] == prev[j]);
                        } else {
                            assert(g[i] == prev[i]);
                        }
                    }
                },
            }
        }
    }
}

/// The Workspaces list shows each workspace at most once.
pub proof fn lemma_workspaces_listed_once(ns: Seq<NodeView>, o: OptionsView)
    ensures
        forall|i: int, j: int|
            0 <= i < j < display_rows(ns, o, CategoryTab::Workspaces).len() ==> ws_row_id(
                #[trigger] display_rows(ns, o, CategoryTab::Workspaces)[i],
            ) != ws_row_id(#[trigger] display_rows(ns, o, CategoryTab::Workspaces)[j]),
{
    let gs = grouped(ns, o.ws_ts, o.active_workspace_id, false);
    lemma_ws_groups_distinct(ns, o.ws_ts, o.active_workspace_id);
    let rows = group_rows(gs);
    assert forall|i: int, j: int| 0 <= i < j < rows.len() implies ws_row_id(#[trigger] rows[i]) != ws_row_id(
        #[trigger] rows[j],
    ) by {
        assert(rows[i] == gs[i].1 && rows[j] == gs[j].1);
    }
    let key = |v: DisplayView| ws_row_id(v);
    assert forall|i: int, j: int| 0 <= i < j < rows.len() implies key(#[trigger] rows[i]) != key(#[trigger] rows[j]) by {
        assert(ws_row_id(rows[i]) != ws_row_id(rows[j]));
    }
    lemma_sort_by_distinct_keys(rows, mru_order(), key);
    let r = mru_sorted(rows);
    assert forall|i: int, j: int| 0 <= i < j < r.len() implies ws_row_id(#[trigger] r[i]) != ws_row_id(#[trigger] r[j]) by {
        assert(key(r[i]) != key(r[j]));
    }
}

// ── The active-only filter ──

/// The rows that pass the active-only filter.
pub open spec fn needs_attention_pred() -> spec_fn(DisplayView) -> bool {
    |v: DisplayView| row_needs_attention(v)
}

proof fn lemma_attention_rows_filter(vs: Seq<DisplayView>)
    ensures
        attention_rows(vs) == vs.filter(needs_attention_pred()),
    decreases vs.len(),
{
    reveal(Seq::filter);
    if vs.len() > 0 {
        lemma_attention_rows_filter(vs.drop_last());
    }
}

/// The active-only filter keeps, in their order, exactly the rows that need
/// attention: every row it shows needs attention, and every row of the list
/// that needs attention is shown.
pub proof fn lemma_active_only_keeps_attention(vs: Seq<DisplayView>)
    ensures
        attention_rows(vs) == vs.filter(needs_attention_pred()),
        forall|i: int| 0 <= i < attention_rows(vs).len() ==> row_needs_attention(#[trigger] attention_rows(vs)[i]),
        forall|j: int|
            0 <= j < vs.len() && row_needs_attention(vs[j]) ==> #[trigger] attention_rows(vs).contains(vs[j]),
        attention_rows(vs).len() <= vs.len(),
{
    lemma_attention_rows_filter(vs);
    vs.filter_lemma(needs_attention_pred());
}

/// Pressing Ctrl+E twice leaves the active-only filter as it was.
pub proof fn lemma_active_only_toggle_twice(a: AppState, b: AppState, c: AppState, k: KeyPress)
    requires
        toggles_active_only(k),
        filter_after(&a, &b, k),
        filter_after(&b, &c, k),
    ensures
        c.active_only == a.active_only,
        b.active_only != a.active_only,
{
}

// ── Fuzzy search ──

/// The rows that match `query`.
pub open spec fn matches_query(query: Seq<char>) -> spec_fn(DisplayView) -> bool {
    |v: DisplayView| search_key(query, v) is Some
}

/// The rows a search for `query` shows of the list `vs`.
pub open spec fn search_result(query: Seq<char>, vs: Seq<DisplayView>) -> Seq<DisplayView> {
    ranked(vs, search_keys(query, vs))
}

/// The scored rows are the matching rows, in order, each scored pair
/// holding its row's key.
proof fn lemma_scored_matches(query: Seq<char>, vs: Seq<DisplayView>, keys: Seq<Option<(u32, u32)>>)
    requires
        keys.len() >= vs.len(),
        forall|k: int| 0 <= k < vs.len() ==> keys[k] == search_key(query, vs[k]),
    ensures
        scored_rows(scored(vs, keys)) == vs.filter(matches_query(query)),
        forall|m: int|
            0 <= m < scored(vs, keys).len() ==> search_key(query, (#[trigger] scored(vs, keys)[m]).1) == Some(
                scored(vs, keys)[m].0,
            ) && vs.contains(scored(vs, keys)[m].1),
    decreases vs.len(),
{
    reveal(Seq::filter);
    if vs.len() == 0 {
        assert(scored_rows(scored(vs, keys)) =~= vs.filter(matches_query(query)));
    } else {
        let pre = vs.drop_last();
        assert forall|k: int| 0 <= k < pre.len() implies keys[k] == search_key(query, pre[k]) by {
            assert(pre[k] == vs[k]);
        }
        lemma_scored_matches(query, pre, keys);
        let s0 = scored(pre, keys);
        let s = scored(vs, keys);
        assert(keys[vs.len() - 1] == search_key(query, vs.last()));
        assert forall|m: int| 0 <= m < s0.len() implies vs.contains(s0[m].1) by {
            let j = choose|j: int| 0 <= j < pre.len() && pre[j] == s0[m].1;
            assert(vs[j] == s0[m].1);
        }
        match keys[vs.len() - 1] {
            Some(k) => {
                assert(s == s0.push((k, vs.last())));
                assert(scored_rows(s) =~= scored_rows(s0).push(vs.last()));
                assert forall|m: int| 0 <= m < s.len() implies search_key(query, (#[trigger] s[m]).1) == Some(s[m].0)
                    && vs.contains(s[m].1) by {
                    if m < s0.len() {
                        assert(s[m] == s0[m]);
                    } else {
                        assert(vs[vs.len() - 1] == vs.last());
                    }
                }
            },
            None => {
                assert(s == s0);
            },
        }
    }
}

/// The ranking order is a strict order.
proof fn lemma_score_order_strict()
    ensures
        is_strict_order(score_order()),
{
    let lt = score_order();
    assert forall|a: ((u32, u32), DisplayView)| !(#[trigger] lt(a, a)) by {}
    assert forall|a: ((u32, u32), DisplayView), b: ((u32, u32), DisplayView), c: ((u32, u32), DisplayView)|
        #[trigger] lt(a, b) && #[trigger] lt(b, c) implies lt(a, c) by {
        assert(key_gt(a.0, b.0) && key_gt(b.0, c.0));
    }
}

/// A search shows exactly the rows of the list that match the query, as
/// many as match, best match first: every row shown matches and is a row
/// of the list, every matching row is shown, and no row is shown after one
/// it outranks.
pub proof fn lemma_search_shows_matches(query: Seq<char>, vs: Seq<DisplayView>)
    ensures
        search_result(query, vs).len() == vs.filter(matches_query(query)).len(),
        forall|i: int|
            0 <= i < search_result(query, vs).len() ==> search_key(query, #[trigger] search_result(query, vs)[i])
                is Some && vs.contains(search_result(query, vs)[i]),
        forall|j: int|
            0 <= j < vs.len() && search_key(query, vs[j]) is Some ==> #[trigger] search_result(query, vs).contains(
                vs[j],
            ),
        forall|i: int, j: int|
            0 <= i < j < search_result(query, vs).len() ==> !key_gt(
                search_key(query, #[trigger] search_result(query, vs)[j]).unwrap(),
                search_key(query, #[trigger] search_result(query, vs)[i]).unwrap(),
            ),
{
    broadcast use vstd::seq_lib::group_seq_properties, vstd::multiset::group_multiset_axioms;

    let keys = search_keys(query, vs);
    let s = scored(vs, keys);
    let t = sort_by(s, score_order());
    let r = scored_rows(t);
    assert(r == search_result(query, vs));
    lemma_scored_matches(query, vs, keys);
    lemma_sort_by_multiset(s, score_order());
    lemma_score_order_strict();
    lemma_sort_by_sorted(s, score_order());
    vs.filter_lemma(matches_query(query));
    assert(scored_rows(s).len() == s.len());
    // Every pair of the sort is a pair of the scored rows.
    assert forall|i: int| 0 <= i < t.len() implies search_key(query, (#[trigger] t[i]).1) == Some(t[i].0)
        && vs.contains(t[i].1) by {
        assert(t.contains(t[i]));
        assert(t.to_multiset().count(t[i]) > 0);
        assert(s.contains(t[i]));
        let m = choose|m: int| 0 <= m < s.len() && s[m] == t[i];
        assert(search_key(query, s[m].1) == Some(s[m].0));
    }
    assert forall|i: int| 0 <= i < r.len() implies search_key(query, #[trigger] r[i]) is Some && vs.contains(r[i]) by {
        assert(r[i] == t[i].1);
    }
    assert forall|j: int| 0 <= j < vs.len() && search_key(query, vs[j]) is Some implies #[trigger] r.contains(vs[j]) by {
        assert(matches_query(query)(vs[j]));
        assert(vs.filter(matches_query(query)).contains(vs[j]));
        assert(scored_rows(s).contains(vs[j]));
        let m = choose|m: int| 0 <= m < scored_rows(s).len() && scored_rows(s)[m] == vs[j];
        assert(s[m].1 == vs[j]);
        assert(s.contains(s[m]));
        assert(s.to_multiset().count(s[m]) > 0);
        assert(t.contains(s[m]));
        let i = choose|i: int| 0 <= i < t.len() && t[i] == s[m];
        assert(r[i] == vs[j]);
    }
    assert forall|i: int, j: int| 0 <= i < j < r.len() implies !key_gt(
        search_key(query, #[trigger] r[j]).unwrap(),
        search_key(query, #[trigger] r[i]).unwrap(),
    ) by {
        assert(r[i] == t[i].1 && r[j] == t[j].1);
        assert(search_key(query, t[i].1) == Some(t[i].0));
        assert(search_key(query, t[j].1) == Some(t[j].0));
        assert(!score_order()(t[j], t[i]));
    }
}

// ── The cached list ──

/// The list is rebuilt only when its inputs change: bringing it up to date
/// a second time, with the same options and nothing changed in between,
/// keeps the list and the total of the first time.
pub proof fn lemma_refresh_twice_keeps_list(a: AppState, b: AppState, c: AppState, o: OptionsView)
    requires
        refreshed(a, b, o),
        refreshed(b, c, o),
    ensures
        c.cached_displayed == b.cached_displayed,
        c.cached_total == b.cached_total,
        c.cache_key == b.cache_key,
{
    assert(b.nodes.deep_view() =~= a.nodes.deep_view());
    assert(b.search_query@ == a.search_query@);
}

// ── ssh targets ──

/// A space ends the leading word: appending a space and more text leaves
/// the length of the first run of non-space characters as it was.
proof fn lemma_run_len_append(c: Seq<char>, w: Seq<char>)
    ensures
        run_len(c + seq![' '] + w) == run_len(c),
    decreases c.len(),
{
    let s = c + seq![' '] + w;
    assert(is_ws(' '));
    if c.len() == 0 {
        assert(s[0] == ' ');
    } else if is_ws(c[0]) {
        assert(s[0] == c[0]);
    } else {
        assert(s[0] == c[0]);
        assert(s.drop_first() =~= c.drop_first() + seq![' '] + w);
        lemma_run_len_append(c.drop_first(), w);
    }
}

/// The words of `c`, a space and `w` are the words of `c` followed by the
/// words of `w`.
proof fn lemma_words_append(c: Seq<char>, w: Seq<char>)
    ensures
        words(c + seq![' '] + w) == words(c) + words(w),
    decreases c.len(),
{
    let s = c + seq![' '] + w;
    assert(is_ws(' '));
    if c.len() == 0 {
        assert(s[0] == ' ');
        assert(s.drop_first() =~= w);
        assert(words(c) + words(w) =~= words(w));
    } else if is_ws(c[0]) {
        assert(s[0] == c[0]);
        assert(s.drop_first() =~= c.drop_first() + seq![' '] + w);
        lemma_words_append(c.drop_first(), w);
        assert(words(c) + words(w) =~= words(c.drop_first()) + words(w));
    } else {
        assert(s[0] == c[0]);
        lemma_run_len_append(c, w);
        lemma_run_len_bounds(c);
        let n = run_len(c) as int;
        assert(s.take(n) =~= c.take(n));
        assert(s.skip(n) =~= c.skip(n) + seq![' '] + w);
        lemma_words_append(c.skip(n), w);
        assert(words(s) =~= seq![c.take(n)] + (words(c.skip(n)) + words(w)));
        assert(words(c) + words(w) =~= seq![c.take(n)] + (words(c.skip(n)) + words(w)));
    }
}

/// A scan that finds a destination in `t` finds the same one when more
/// words follow.
proof fn lemma_ssh_scan_extend(
    t: Seq<Seq<char>>,
    u: Seq<Seq<char>>,
    i: int,
    user: Option<Seq<char>>,
    port: Option<Seq<char>>,
)
    requires
        ssh_scan(t, i, user, port) is Some,
    ensures
        ssh_scan(t + u, i, user, port) == ssh_scan(t, i, user, port),
    decreases t.len() - i,
{
    let tu = t + u;
    if 0 <= i < t.len() {
        assert(tu[i] == t[i]);
        let tok = t[i];
        if tok == "--"@ {
            assert(tu[i + 1] == t[i + 1]);
        } else if tok.len() > 1 && tok[0] == '-' {
            if tok.len() > 2 && ssh_value_letter(tok[1]) {
                let up = apply_ssh_opt(tok[1], tok.skip(2), user, port);
                lemma_ssh_scan_extend(t, u, i + 1, up.0, up.1);
            } else if tok.len() == 2 && ssh_value_letter(tok[1]) {
                assert(tu[i + 1] == t[i + 1]);
                let up = apply_ssh_opt(tok[1], t[i + 1], user, port);
                lemma_ssh_scan_extend(t, u, i + 2, up.0, up.1);
            } else {
                lemma_ssh_scan_extend(t, u, i + 1, user, port);
            }
        }
    }
}

/// Words after the ssh destination are the remote command and are ignored:
/// appending a space and any text to a command line that has a login
/// target keeps that target.
pub proof fn lemma_ssh_target_ignores_trailing_words(cmd: Seq<char>, w: Seq<char>)
    requires
        ssh_target(cmd) is Some,
    ensures
        ssh_target(cmd + seq![' '] + w) == ssh_target(cmd),
{
    let c2 = cmd + seq![' '] + w;
    lemma_words_append(cmd, w);
    let t = words(cmd);
    let t2 = words(c2);
    assert(t2 == t + words(w));
    assert(t2[0] == t[0]);
    assert(first_word(c2) == first_word(cmd));
    lemma_ssh_scan_extend(t, words(w), 1, None, None);
}

// ── Tab recency ──

/// The recency of a tab is the latest of its own focus time and the focus
/// times of its panes: at least its direct entry and at least the time of
/// every pane it holds (a pane time of 0 meaning never focused), and equal
/// to one of those times. A tab has a recency exactly when it has a direct
/// entry or a focused pane.
pub proof fn lemma_tab_recency_is_latest(
    ns: Seq<NodeView>,
    tab_ts: Map<Seq<char>, u64>,
    pane_ts: Map<Seq<char>, u64>,
    k: Seq<char>,
)
    ensures
        tab_ts.contains_key(k) ==> merged_tab_ts(ns, tab_ts, pane_ts).contains_key(k)
            && merged_tab_ts(ns, tab_ts, pane_ts)[k] >= tab_ts[k],
        forall|i: int|
            0 <= i < ns.len() && (#[trigger] ns[i]).tab_id == k && ts_in(pane_ts, ns[i].pane_id) > 0
                ==> merged_tab_ts(ns, tab_ts, pane_ts).contains_key(k) && merged_tab_ts(ns, tab_ts, pane_ts)[k]
                >= ts_in(pane_ts, ns[i].pane_id),
        merged_tab_ts(ns, tab_ts, pane_ts).contains_key(k) ==> (tab_ts.contains_key(k)
            && merged_tab_ts(ns, tab_ts, pane_ts)[k] == tab_ts[k]) || exists|i: int|
            0 <= i < ns.len() && (#[trigger] ns[i]).tab_id == k && ts_in(pane_ts, ns[i].pane_id) > 0
                && merged_tab_ts(ns, tab_ts, pane_ts)[k] == ts_in(pane_ts, ns[i].pane_id),
    decreases ns.len(),
{
    if ns.len() > 0 {
        let pre = ns.drop_last();
        lemma_tab_recency_is_latest(pre, tab_ts, pane_ts, k);
        let m = merged_tab_ts(pre, tab_ts, pane_ts);
        let r = merged_tab_ts(ns, tab_ts, pane_ts);
        let n = ns.last();
        let p = ts_in(pane_ts, n.pane_id);
        assert forall|i: int|
            0 <= i < ns.len() && (#[trigger] ns[i]).tab_id == k && ts_in(pane_ts, ns[i].pane_id) > 0
                implies r.contains_key(k) && r[k] >= ts_in(pane_ts, ns[i].pane_id) by {
            if i < pre.len() {
                assert(pre[i] == ns[i]);
            } else {
                assert(ns[i] == n);
            }
        }
        if r.contains_key(k) {
            if p > 0 && n.tab_id == k {
                if m.contains_key(k) && m[k] >= p {
                    assert(r[k] == m[k]);
                    if !(tab_ts.contains_key(k) && m[k] == tab_ts[k]) {
                        let i = choose|i: int|
                            0 <= i < pre.len() && (#[trigger] pre[i]).tab_id == k && ts_in(pane_ts, pre[i].pane_id) > 0
                                && m[k] == ts_in(pane_ts, pre[i].pane_id);
                        assert(ns[i] == pre[i]);
                    }
                } else {
                    assert(r[k] == p);
                    assert(ns[ns.len() - 1] == n);
                }
            } else {
                assert(r[k] == m[k]);
                if !(tab_ts.contains_key(k) && m[k] == tab_ts[k]) {
                    let i = choose|i: int|
                        0 <= i < pre.len() && (#[trigger] pre[i]).tab_id == k && ts_in(pane_ts, pre[i].pane_id) > 0
                            && m[k] == ts_in(pane_ts, pre[i].pane_id);
                    assert(ns[i] == pre[i]);
                }
            }
        }
    }
}

// ── Agent status ──

/// Converting Herdr's wire status keeps its meaning: working, blocked,
/// done and idle each become the status of the same name, and only an
/// unknown status becomes "no agent".
pub proof fn lemma_wire_status_keeps_meaning(w: AgentStatusWire)
    ensures
        (status_of(w) == AgentStatus::Working) <==> (w == AgentStatusWire::Working),
        (status_of(w) == AgentStatus::Blocked) <==> (w == AgentStatusWire::Blocked),
        (status_of(w) == AgentStatus::Done) <==> (w == AgentStatusWire::Done),
        (status_of(w) == AgentStatus::Idle) <==> (w == AgentStatusWire::Idle),
        (status_of(w) == AgentStatus::NoAgent) <==> (w == AgentStatusWire::Unknown),
{
}

// ── Focus events ──

/// A recorded focus event has the kind its name says, with the id of the
/// matching data field and the data's workspace: `workspace_focused`
/// records the workspace, `pane_focused` the pane, `tab_focused` the tab.
pub proof fn lemma_track_records_named_kind(e: TrackView)
    ensures
        track_outcome(e) matches Ok(Some(r)) ==> {
            &&& e.workspace_id == Some(r.2)
            &&& r.0 == MruKind::Workspace ==> e.event == Some("workspace_focused"@) && r.1 == r.2
            &&& r.0 == MruKind::Pane ==> e.event == Some("pane_focused"@) && e.pane_id == Some(r.1)
            &&& r.0 == MruKind::Tab ==> e.event == Some("tab_focused"@) && e.tab_id == Some(r.1)
        },
{
}

// ── Search ranking ──

/// Search ranks by fuzzy score: of two rows shown, the later never scores
/// higher than the earlier. Rows other than "Others" rows are compared by
/// the score of their search text, "Others" rows by the score of their
/// detail column.
pub proof fn lemma_search_ranks_by_score(query: Seq<char>, vs: Seq<DisplayView>)
    ensures
        forall|i: int, j: int|
            0 <= i < j < search_result(query, vs).len() && !(#[trigger] search_result(query, vs)[i] is Other)
                && !(#[trigger] search_result(query, vs)[j] is Other) ==> fuzzy_score(
                query,
                search_text_of(search_result(query, vs)[j]),
            ).unwrap() <= fuzzy_score(query, search_text_of(search_result(query, vs)[i])).unwrap(),
        forall|i: int, j: int|
            0 <= i < j < search_result(query, vs).len() && (#[trigger] search_result(query, vs)[i] is Other)
                && (#[trigger] search_result(query, vs)[j] is Other) ==> detail_score(
                query,
                search_result(query, vs)[j],
            ) <= detail_score(query, search_result(query, vs)[i]),
{
    lemma_search_shows_matches(query, vs);
    let r = search_result(query, vs);
    assert forall|i: int, j: int|
        0 <= i < j < r.len() && !(#[trigger] r[i] is Other) && !(#[trigger] r[j] is Other) implies fuzzy_score(
        query,
        search_text_of(r[j]),
    ).unwrap() <= fuzzy_score(query, search_text_of(r[i])).unwrap() by {
        assert(search_key(query, r[i]) is Some);
        assert(search_key(query, r[j]) is Some);
        assert(!key_gt(search_key(query, r[j]).unwrap(), search_key(query, r[i]).unwrap()));
    }
    assert forall|i: int, j: int|
        0 <= i < j < r.len() && (#[trigger] r[i] is Other) && (#[trigger] r[j] is Other) implies detail_score(
        query,
        r[j],
    ) <= detail_score(query, r[i]) by {
        assert(search_key(query, r[i]) is Some);
        assert(search_key(query, r[j]) is Some);
        assert(!key_gt(search_key(query, r[j]).unwrap(), search_key(query, r[i]).unwrap()));
    }
}

/// The fuzzy score of an "Others" row's detail column (0 when it does not
/// match).
pub open spec fn detail_score(query: Seq<char>, v: DisplayView) -> u32 {
    match v {
        DisplayView::Other { detail, .. } => match fuzzy_score(query, detail) {
            Some(d) => d,
            None => 0,
        },
        _ => 0,
    }
}

// ── Focus targets ──

/// Choosing a row focuses the entity the row stands for: a workspace row
/// its workspace, a tab row its tab, and an agent, pane or "Others" row the
/// pane it lists.
pub proof fn lemma_target_is_rows_entity(d: DisplayView)
    ensures
        d matches DisplayView::Workspace { id, .. } ==> target_of(d) == FocusView::Workspace(id),
        d matches DisplayView::Tab { tab_id, .. } ==> target_of(d) == FocusView::Tab(tab_id),
        d matches DisplayView::Agent { pane_id, .. } ==> target_of(d) == FocusView::Pane(pane_id),
        d matches DisplayView::Pane { pane_id, .. } ==> target_of(d) == FocusView::Pane(pane_id),
        d matches DisplayView::Other { pane_id, .. } ==> target_of(d) == FocusView::Pane(pane_id),
{
}

} // verus!
