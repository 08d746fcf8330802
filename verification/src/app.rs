//! Key handling: how the navigator's state answers each key press.

use vstd::prelude::*;
use crate::models::{
    AppState, CategoryTab, DisplayItem, DisplayView, FocusTarget, FocusView, KeyAction, KeyCode,
    KeyModifiers, KeyPress, Keybindings, NavigationNode, default_categories, is_default_keybindings,
    next_tab, previous_tab, NodeView,
};
use crate::mru::{
    attention_rows, build_cache_key, build_display_list, cache_key_of, display_rows, filter_active_only, ranked,
    search_display_items, search_keys, BuildOptions, OptionsView,
};

verus! {

/// Removes the last character of a string, if any (`String::pop`).
#[verifier::external_body]
fn pop_char(s: &mut String)
    ensures
        final(s)@ == if old(s)@.len() > 0 {
            old(s)@.drop_last()
        } else {
            old(s)@
        },
{
    s.pop();
}

/// Only Control held.
pub open spec fn control_only() -> KeyModifiers {
    KeyModifiers { control: true, shift: false, alt: false, extra: false }
}

/// Only Shift held.
pub open spec fn shift_only() -> KeyModifiers {
    KeyModifiers { control: false, shift: true, alt: false, extra: false }
}

/// Whether `k` types a character into the search (no modifier, or Shift only).
pub open spec fn types_char(k: KeyPress) -> bool {
    k.code is Char && (k.modifiers == KeyModifiers::none_spec() || k.modifiers == shift_only())
}

/// Whether `k` is the given character with only Control held.
pub open spec fn is_ctrl_char(k: KeyPress, c: char) -> bool {
    k.code == KeyCode::Char(c) && k.modifiers == control_only()
}

/// Whether `k` moves the selection up (Up, Ctrl+P).
pub open spec fn moves_up(k: KeyPress) -> bool {
    k.code == KeyCode::Up || is_ctrl_char(k, 'p')
}

/// Whether `k` moves the selection down (Down, Ctrl+N).
pub open spec fn moves_down(k: KeyPress) -> bool {
    k.code == KeyCode::Down || is_ctrl_char(k, 'n')
}

/// What a key press asks of the event loop.
pub open spec fn key_result(query: Seq<char>, k: KeyPress) -> KeyAction {
    if k.code == KeyCode::Esc {
        if query.len() == 0 {
            KeyAction::ExitDismiss
        } else {
            KeyAction::Continue
        }
    } else if is_ctrl_char(k, 'c') {
        KeyAction::ExitDismiss
    } else if k.code == KeyCode::Enter {
        KeyAction::ExitSelect
    } else {
        KeyAction::Continue
    }
}

/// The search query after a key press: Esc clears it, Backspace drops its
/// last character, a typed character is appended.
pub open spec fn query_after(query: Seq<char>, k: KeyPress) -> Seq<char> {
    if k.code == KeyCode::Esc {
        seq![]
    } else if is_ctrl_char(k, 'c') || k.code == KeyCode::Enter || k.code == KeyCode::Tab || k.code
        == KeyCode::BackTab {
        query
    } else if k.code == KeyCode::Backspace {
        if query.len() > 0 {
            query.drop_last()
        } else {
            query
        }
    } else if types_char(k) {
        query.push(k.code->0)
    } else {
        query
    }
}

/// The category after a key press: Tab and Shift+Tab cycle through the
/// enabled tabs.
pub open spec fn category_after(cats: Seq<CategoryTab>, cur: CategoryTab, k: KeyPress) -> CategoryTab {
    if k.code == KeyCode::Tab {
        next_tab(cats, cur)
    } else if k.code == KeyCode::BackTab {
        previous_tab(cats, cur)
    } else {
        cur
    }
}

/// The index after moving up in a list of `len` rows, wrapping to the end.
pub open spec fn index_up(idx: usize, len: usize) -> usize {
    if len == 0 {
        0
    } else if idx == 0 {
        (len - 1) as usize
    } else {
        (idx - 1) as usize
    }
}

/// The index after moving down in a list of `len` rows, wrapping to the start.
pub open spec fn index_down(idx: usize, len: usize) -> usize {
    if len == 0 {
        0
    } else if idx >= len - 1 {
        0
    } else {
        (idx + 1) as usize
    }
}

/// The selected index after a key press in a list of `len` rows: editing
/// the search or switching tabs resets it, Up/Down move it with wrapping.
pub open spec fn index_after(query: Seq<char>, idx: usize, len: usize, k: KeyPress) -> usize {
    if k.code == KeyCode::Esc {
        if query.len() == 0 {
            idx
        } else {
            0
        }
    } else if is_ctrl_char(k, 'c') || k.code == KeyCode::Enter {
        idx
    } else if k.code == KeyCode::Tab || k.code == KeyCode::BackTab || k.code == KeyCode::Backspace
        || types_char(k) || is_ctrl_char(k, 'e') {
        0
    } else if moves_up(k) {
        index_up(idx, len)
    } else if moves_down(k) {
        index_down(idx, len)
    } else {
        idx
    }
}

/// The row a selected index points at, as a focus target.
pub open spec fn target_of(d: DisplayView) -> FocusView {
    match d {
        DisplayView::Workspace { id, .. } => FocusView::Workspace(id),
        DisplayView::Tab { tab_id, .. } => FocusView::Tab(tab_id),
        DisplayView::Agent { pane_id, .. } => FocusView::Pane(pane_id),
        DisplayView::Pane { pane_id, .. } => FocusView::Pane(pane_id),
        DisplayView::Other { pane_id, .. } => FocusView::Pane(pane_id),
    }
}

/// Whether `k` toggles the active-only filter (Ctrl+E).
pub open spec fn toggles_active_only(k: KeyPress) -> bool {
    is_ctrl_char(k, 'e')
}

/// The parts of the state that key handling never touches are unchanged.
pub open spec fn same_context(a: &AppState, b: &AppState) -> bool {
    &&& a.keybindings == b.keybindings
    &&& a.categories@ == b.categories@
    &&& a.nodes@ == b.nodes@
    &&& a.spinner_tick == b.spinner_tick
    &&& a.theme_name == b.theme_name
    &&& a.cached_displayed == b.cached_displayed
    &&& a.cached_total == b.cached_total
}

/// The filter and cache after a key press: Ctrl+E toggles the active-only
/// filter and drops the cached list, which no longer matches it.
pub open spec fn filter_after(a: &AppState, b: &AppState, k: KeyPress) -> bool {
    if toggles_active_only(k) {
        b.active_only == !a.active_only && b.cache_key is None
    } else {
        b.active_only == a.active_only && b.cache_key == a.cache_key
    }
}

impl AppState {
    /// A fresh state over `nodes`: the Workspaces tab, an empty search, the
    /// first row selected, default keybindings and the default tabs.
    pub fn new(nodes: Vec<NavigationNode>) -> (res: AppState)
        ensures
            res.nodes@ == nodes@,
            res.current_category == CategoryTab::Workspaces,
            res.search_query@ == Seq::<char>::empty(),
            res.selected_index == 0,
            !res.active_only,
            res.spinner_tick == 0,
            res.theme_name is None,
            res.cache_key is None,
            res.cached_displayed@ == Seq::<DisplayItem>::empty(),
            res.cached_total == 0,
            res.categories@ == default_categories(),
            is_default_keybindings(res.keybindings),
    {
        let all = CategoryTab::all();
        let mut categories: Vec<CategoryTab> = Vec::new();
        let mut i: usize = 0;
        while i < 4
            invariant
                i <= 4,
                all@ == default_categories(),
                categories@ == all@.take(i as int),
            decreases 4 - i,
        {
            categories.push(all[i]);
            i = i + 1;
            assert(categories@ =~= all@.take(i as int));
        }
        assert(all@.take(4) =~= all@);
        AppState {
            keybindings: Keybindings::default(),
            categories,
            nodes,
            current_category: CategoryTab::Workspaces,
            search_query: String::new(),
            selected_index: 0,
            active_only: false,
            spinner_tick: 0,
            theme_name: None,
            cache_key: None,
            cached_displayed: std::rc::Rc::new(Vec::new()),
            cached_total: 0,
        }
    }

    /// Handles a key press. `list_len` is the length of the displayed
    /// list, used to wrap Up/Down navigation. Esc clears the search (or
    /// dismisses when it is empty), Ctrl+C dismisses, Enter selects, Tab and
    /// Shift+Tab switch category, Backspace and typed characters edit the
    /// search, Up/Down and Ctrl+P/Ctrl+N move the selection, and Ctrl+E
    /// toggles the active-only filter.
    pub fn handle_key(&mut self, key: KeyPress, list_len: usize) -> (res: KeyAction)
        requires
            old(self).categories@.len() > 0,
        ensures
            res == key_result(old(self).search_query@, key),
            final(self).search_query@ == query_after(old(self).search_query@, key),
            final(self).current_category == category_after(
                old(self).categories@,
                old(self).current_category,
                key,
            ),
            final(self).selected_index == index_after(
                old(self).search_query@,
                old(self).selected_index,
                list_len,
                key,
            ),
            same_context(old(self), final(self)),
            filter_after(old(self), final(self), key),
    {
        let none = KeyModifiers::none();
        let control = KeyModifiers { control: true, shift: false, alt: false, extra: false };
        let shift = KeyModifiers { control: false, shift: true, alt: false, extra: false };
        if key.code == KeyCode::Esc {
            if self.search_query.as_str().is_empty() {
                assert(self.search_query@ =~= seq![]);
                KeyAction::ExitDismiss
            } else {
                self.search_query = String::new();
                self.selected_index = 0;
                KeyAction::Continue
            }
        } else if key.code == KeyCode::Char('c') && key.modifiers == control {
            KeyAction::ExitDismiss
        } else if key.code == KeyCode::Enter {
            KeyAction::ExitSelect
        } else if key.code == KeyCode::Tab {
            self.current_category = self.current_category.next_in(self.categories.as_slice());
            self.selected_index = 0;
            KeyAction::Continue
        } else if key.code == KeyCode::BackTab {
            self.current_category = self.current_category.previous_in(self.categories.as_slice());
            self.selected_index = 0;
            KeyAction::Continue
        } else if key.code == KeyCode::Backspace {
            pop_char(&mut self.search_query);
            self.selected_index = 0;
            KeyAction::Continue
        } else if let KeyCode::Char(c) = key.code {
            if key.modifiers == none || key.modifiers == shift {
                crate::text::push_char(&mut self.search_query, c);
                self.selected_index = 0;
            } else if c == 'p' && key.modifiers == control {
                self.select_prev(list_len);
            } else if c == 'n' && key.modifiers == control {
                self.select_next(list_len);
            } else if c == 'e' && key.modifiers == control {
                self.active_only = !self.active_only;
                self.cache_key = None;
                self.selected_index = 0;
            }
            KeyAction::Continue
        } else if key.code == KeyCode::Up {
            self.select_prev(list_len);
            KeyAction::Continue
        } else if key.code == KeyCode::Down {
            self.select_next(list_len);
            KeyAction::Continue
        } else {
            KeyAction::Continue
        }
    }

    /// Moves the selection to the previous row, wrapping to the end.
    pub fn select_prev(&mut self, list_len: usize)
        ensures
            final(self).selected_index == index_up(old(self).selected_index, list_len),
            final(self).search_query == old(self).search_query,
            final(self).current_category == old(self).current_category,
            final(self).active_only == old(self).active_only,
            final(self).cache_key == old(self).cache_key,
            same_context(old(self), final(self)),
    {
        if list_len == 0 {
            self.selected_index = 0;
        } else {
            self.selected_index = if self.selected_index == 0 {
                list_len - 1
            } else {
                self.selected_index - 1
            };
        }
    }

    /// Moves the selection to the next row, wrapping to the start.
    pub fn select_next(&mut self, list_len: usize)
        ensures
            final(self).selected_index == index_down(old(self).selected_index, list_len),
            final(self).search_query == old(self).search_query,
            final(self).current_category == old(self).current_category,
            final(self).active_only == old(self).active_only,
            final(self).cache_key == old(self).cache_key,
            same_context(old(self), final(self)),
    {
        if list_len == 0 {
            self.selected_index = 0;
        } else {
            self.selected_index = if self.selected_index >= list_len - 1 {
                0
            } else {
                self.selected_index + 1
            };
        }
    }
}

/// The rows a category lists: its built list, narrowed to the rows that
/// need attention while the active-only filter is on.
pub open spec fn listed_rows(ns: Seq<NodeView>, o: OptionsView, category: CategoryTab, active_only: bool) -> Seq<DisplayView> {
    let rows = display_rows(ns, o, category);
    if active_only {
        attention_rows(rows)
    } else {
        rows
    }
}

/// The rows shown for `rows`: all of them for an empty query, else the
/// matching ones, best match first.
pub open spec fn shown_rows(rows: Seq<DisplayView>, query: Seq<char>) -> Seq<DisplayView> {
    if query.len() == 0 {
        rows
    } else {
        ranked(rows, search_keys(query, rows))
    }
}

/// The cache key of the state's current list inputs.
pub open spec fn state_cache_key(s: AppState, o: OptionsView) -> u64 {
    cache_key_of(s.nodes.deep_view(), o, s.current_category, s.search_query@)
}

/// Everything but the node list and the cache is the same.
pub open spec fn same_view(a: &AppState, b: &AppState) -> bool {
    &&& a.keybindings == b.keybindings
    &&& a.categories@ == b.categories@
    &&& a.current_category == b.current_category
    &&& a.search_query@ == b.search_query@
    &&& a.selected_index == b.selected_index
    &&& a.active_only == b.active_only
    &&& a.spinner_tick == b.spinner_tick
    &&& a.theme_name == b.theme_name
}

/// The state `b` after bringing the list of state `a` up to date: the
/// stored key becomes the key of the current inputs. Where `a` already held
/// that key, the cached list and total stay; otherwise the list is rebuilt:
/// the category's rows (narrowed by the active-only filter) give the total,
/// and the rows the query matches are the list shown. Nothing else changes.
pub open spec fn refreshed(a: AppState, b: AppState, o: OptionsView) -> bool {
    let key = state_cache_key(a, o);
    let rows = listed_rows(a.nodes.deep_view(), o, a.current_category, a.active_only);
    &&& b.cache_key == Some(key)
    &&& a.cache_key == Some(key) ==> b.cached_displayed == a.cached_displayed && b.cached_total == a.cached_total
    &&& a.cache_key != Some(key) ==> b.cached_displayed.deep_view() == shown_rows(rows, a.search_query@)
        && b.cached_total == rows.len()
    &&& b.nodes@ == a.nodes@
    &&& same_view(&a, &b)
}

impl AppState {
    /// Takes a freshly fetched node list; the cached list no longer matches
    /// it and is dropped.
    pub fn set_nodes(&mut self, nodes: Vec<NavigationNode>)
        ensures
            final(self).nodes@ == nodes@,
            final(self).cache_key is None,
            final(self).cached_displayed == old(self).cached_displayed,
            final(self).cached_total == old(self).cached_total,
            same_view(old(self), final(self)),
    {
        self.nodes = nodes;
        self.cache_key = None;
    }

    /// Brings the cached list up to date with the nodes, the category, the
    /// filter and the query (see [`refreshed`]).
    pub fn refresh_display(&mut self, opts: &BuildOptions)
        ensures
            refreshed(*old(self), *final(self), opts@),
    {
        let key = build_cache_key(self.nodes.as_slice(), opts, &self.current_category, self.search_query.as_str());
        let hit = match self.cache_key {
            Some(k) => k == key,
            None => false,
        };
        if !hit {
            let built = build_display_list(self.nodes.as_slice(), opts, &self.current_category);
            let items = if self.active_only {
                filter_active_only(built.as_slice())
            } else {
                built
            };
            let total = items.len();
            let shown = if self.search_query.as_str().is_empty() {
                items
            } else {
                search_display_items(items.as_slice(), self.search_query.as_str())
            };
            self.cache_key = Some(key);
            self.cached_total = total;
            self.cached_displayed = std::rc::Rc::new(shown);
        }
    }
}

/// The focus target of the selected row of `displayed`, or `None` when the
/// selection is past the end.
pub fn get_selected_target_from_list(state: &AppState, displayed: &[DisplayItem]) -> (res: Option<
    FocusTarget,
>)
    ensures
        match res {
            Some(t) => state.selected_index < displayed@.len() && t.deep_view() == target_of(
                displayed@[state.selected_index as int].deep_view(),
            ),
            None => state.selected_index >= displayed@.len(),
        },
{
    if state.selected_index >= displayed.len() {
        return None;
    }
    let item = &displayed[state.selected_index];
    let t = match item {
        DisplayItem::Workspace { id, .. } => FocusTarget::Workspace(id.clone()),
        DisplayItem::Tab { tab_id, .. } => FocusTarget::Tab(tab_id.clone()),
        DisplayItem::Agent { pane_id, .. } => FocusTarget::Pane(pane_id.clone()),
        DisplayItem::Pane { pane_id, .. } => FocusTarget::Pane(pane_id.clone()),
        DisplayItem::Other { pane_id, .. } => FocusTarget::Pane(pane_id.clone()),
    };
    Some(t)
}

} // verus!
