use herdr_recent_navigator::app::get_selected_target_from_list;
use herdr_recent_navigator::models::{
    AgentStatus, AppState, CategoryTab, DisplayItem, FocusTarget, KeyAction, KeyCode, KeyModifiers,
    KeyPress, NavigationNode, PaneOthers,
};
use herdr_recent_navigator::mru::BuildOptions;
use herdr_recent_navigator::strmap::StrMap;

const NONE: KeyModifiers = KeyModifiers { control: false, shift: false, alt: false, extra: false };
const SHIFT: KeyModifiers = KeyModifiers { control: false, shift: true, alt: false, extra: false };
const CONTROL: KeyModifiers = KeyModifiers { control: true, shift: false, alt: false, extra: false };

fn make_key(code: KeyCode, modifiers: KeyModifiers) -> KeyPress {
    KeyPress { code, modifiers }
}

fn node(pane: &str, ws: &str, ws_name: &str, tab_name: &str, agent: Option<&str>) -> NavigationNode {
    NavigationNode {
        workspace_id: ws.into(),
        workspace_name: ws_name.into(),
        tab_id: format!("tab-{}", pane),
        tab_name: tab_name.into(),
        pane_id: pane.into(),
        pane_name: Some(pane.into()),
        agent_id: agent.map(String::from),
        agent_status: if agent.is_some() { AgentStatus::Working } else { AgentStatus::NoAgent },
        last_accessed_at: 0,
    }
}

fn mock_nodes() -> Vec<NavigationNode> {
    vec![
        node("pane-1", "ws-1", "Auth-Service", "Main", Some("agent-1")),
        node("pane-2", "ws-2", "Backend-Repo", "Dev", Some("agent-2")),
        node("pane-3", "ws-1", "Auth-Service", "Config", None),
    ]
}

#[test]
fn test_tab_cycles_categories() {
    let nodes = mock_nodes();
    let mut state = AppState::new(nodes);

    assert_eq!(state.current_category, CategoryTab::Workspaces);

    state.handle_key(make_key(KeyCode::Tab, NONE), 10);
    assert_eq!(state.current_category, CategoryTab::Tabs);

    state.handle_key(make_key(KeyCode::Tab, NONE), 10);
    assert_eq!(state.current_category, CategoryTab::Panes);

    state.handle_key(make_key(KeyCode::Tab, NONE), 10);
    assert_eq!(state.current_category, CategoryTab::Agents);

    state.handle_key(make_key(KeyCode::Tab, NONE), 10);
    assert_eq!(state.current_category, CategoryTab::Workspaces);
}

#[test]
fn test_shift_tab_goes_backwards() {
    let nodes = mock_nodes();
    let mut state = AppState::new(nodes);

    state.handle_key(make_key(KeyCode::BackTab, SHIFT), 10);
    assert_eq!(state.current_category, CategoryTab::Agents);

    state.handle_key(make_key(KeyCode::BackTab, SHIFT), 10);
    assert_eq!(state.current_category, CategoryTab::Panes);
}

#[test]
fn test_number_keys_append_to_search() {
    let nodes = mock_nodes();
    let mut state = AppState::new(nodes);

    let action = state.handle_key(make_key(KeyCode::Char('3'), NONE), 10);
    assert_eq!(action, KeyAction::Continue, "Number key should continue");
    assert_eq!(state.search_query, "3", "Key '3' should append to search");
    assert_eq!(state.selected_index, 0, "Key '3' should reset index");

    state.handle_key(make_key(KeyCode::Char('1'), NONE), 10);
    assert_eq!(state.search_query, "31", "Subsequent '1' should append");
}

#[test]
fn test_esc_dismisses() {
    let nodes = mock_nodes();
    let mut state = AppState::new(nodes);
    assert_eq!(state.handle_key(make_key(KeyCode::Esc, NONE), 10), KeyAction::ExitDismiss);
}

#[test]
fn test_ctrl_c_dismisses() {
    let nodes = mock_nodes();
    let mut state = AppState::new(nodes);
    assert_eq!(
        state.handle_key(make_key(KeyCode::Char('c'), CONTROL), 10),
        KeyAction::ExitDismiss
    );
}

#[test]
fn test_enter_selects() {
    let nodes = mock_nodes();
    let mut state = AppState::new(nodes);
    assert_eq!(state.handle_key(make_key(KeyCode::Enter, NONE), 10), KeyAction::ExitSelect);
}

#[test]
fn test_backspace_modifies_search() {
    let nodes = mock_nodes();
    let mut state = AppState::new(nodes);
    for c in "hello".chars() {
        state.handle_key(make_key(KeyCode::Char(c), NONE), 10);
    }
    assert_eq!(state.search_query, "hello");
    state.handle_key(make_key(KeyCode::Backspace, NONE), 10);
    state.handle_key(make_key(KeyCode::Backspace, NONE), 10);
    assert_eq!(state.search_query, "hel");
}

#[test]
fn test_tab_resets_selected_index() {
    let nodes = mock_nodes();
    let mut state = AppState::new(nodes);

    state.selected_index = 3;
    state.handle_key(make_key(KeyCode::Tab, NONE), 10);
    assert_eq!(state.selected_index, 0, "Tab should reset selected_index to 0");
}

#[test]
fn test_esc_clears_search() {
    let nodes = mock_nodes();
    let mut state = AppState::new(nodes);
    state.handle_key(make_key(KeyCode::Char('x'), NONE), 10);
    assert_eq!(state.search_query, "x");
    let action = state.handle_key(make_key(KeyCode::Esc, NONE), 10);
    assert_eq!(action, KeyAction::Continue);
    assert!(state.search_query.is_empty());
}

#[test]
fn test_ctrl_n_moves_down_and_wraps() {
    let nodes = mock_nodes();
    let mut state = AppState::new(nodes);

    let ctrl_n = make_key(KeyCode::Char('n'), CONTROL);
    for expected in [1, 2, 0] {
        state.handle_key(ctrl_n, 3);
        assert_eq!(state.selected_index, expected);
    }
}

#[test]
fn test_ctrl_p_moves_up_and_wraps() {
    let nodes = mock_nodes();
    let mut state = AppState::new(nodes);

    let ctrl_p = make_key(KeyCode::Char('p'), CONTROL);
    for expected in [2, 1, 0] {
        state.handle_key(ctrl_p, 3);
        assert_eq!(state.selected_index, expected);
    }
}

#[test]
fn test_ctrl_n_p_empty_list() {
    let nodes = mock_nodes();
    let mut state = AppState::new(nodes);

    state.handle_key(make_key(KeyCode::Char('n'), CONTROL), 0);
    assert_eq!(state.selected_index, 0);
    state.handle_key(make_key(KeyCode::Char('p'), CONTROL), 0);
    assert_eq!(state.selected_index, 0);
}

#[test]
fn test_ctrl_n_does_not_type_into_search() {
    let nodes = mock_nodes();
    let mut state = AppState::new(nodes);

    state.handle_key(make_key(KeyCode::Char('n'), CONTROL), 3);
    state.handle_key(make_key(KeyCode::Char('p'), CONTROL), 3);
    assert!(state.search_query.is_empty());
}

#[test]
fn arrows_move_and_come_back() {
    let mut state = AppState::new(mock_nodes());
    state.handle_key(make_key(KeyCode::Down, NONE), 5);
    assert_eq!(state.selected_index, 1);
    state.handle_key(make_key(KeyCode::Up, NONE), 5);
    assert_eq!(state.selected_index, 0);
    state.handle_key(make_key(KeyCode::Up, NONE), 5);
    assert_eq!(state.selected_index, 4);
    state.handle_key(make_key(KeyCode::Down, NONE), 5);
    assert_eq!(state.selected_index, 0);
}

#[test]
fn tab_then_shift_tab_returns_to_the_same_category() {
    let mut state = AppState::new(mock_nodes());
    for _ in 0..3 {
        let before = state.current_category;
        state.handle_key(make_key(KeyCode::Tab, NONE), 10);
        state.handle_key(make_key(KeyCode::BackTab, SHIFT), 10);
        assert_eq!(state.current_category, before);
        state.handle_key(make_key(KeyCode::Tab, NONE), 10);
    }
}

#[test]
fn alt_char_does_not_type() {
    let mut state = AppState::new(mock_nodes());
    let alt = KeyModifiers { control: false, shift: false, alt: true, extra: false };
    assert_eq!(state.handle_key(make_key(KeyCode::Char('x'), alt), 10), KeyAction::Continue);
    assert!(state.search_query.is_empty());
}

#[test]
fn selected_target_follows_the_row_kind() {
    let mut state = AppState::new(mock_nodes());
    let rows = vec![
        DisplayItem::Workspace {
            name: "W".into(),
            id: "ws-9".into(),
            pane_ids: vec![],
            agent_statuses: vec![],
            last_accessed_at: 0,
        },
        DisplayItem::Tab {
            name: "T".into(),
            workspace: "W".into(),
            tab_id: "tab-9".into(),
            pane_ids: vec![],
            agent_statuses: vec![],
            last_accessed_at: 0,
        },
    ];
    match get_selected_target_from_list(&state, &rows) {
        Some(FocusTarget::Workspace(id)) => assert_eq!(id, "ws-9"),
        other => panic!("unexpected {:?}", other),
    }
    state.selected_index = 1;
    match get_selected_target_from_list(&state, &rows) {
        Some(FocusTarget::Tab(id)) => assert_eq!(id, "tab-9"),
        other => panic!("unexpected {:?}", other),
    }
    state.selected_index = 2;
    assert!(get_selected_target_from_list(&state, &rows).is_none());
}

#[test]
fn ctrl_e_toggles_active_only_filter() {
    let mut state = AppState::new(mock_nodes());
    assert!(!state.active_only);
    state.cache_key = Some(7);
    state.selected_index = 2;
    let action = state.handle_key(make_key(KeyCode::Char('e'), CONTROL), 10);
    assert_eq!(action, KeyAction::Continue);
    assert!(state.active_only);
    assert_eq!(state.cache_key, None);
    assert_eq!(state.selected_index, 0);
    assert!(state.search_query.is_empty());
    state.handle_key(make_key(KeyCode::Char('e'), CONTROL), 10);
    assert!(!state.active_only);
}

fn no_options<'a>(empty: &'a StrMap<u64>, others: &'a StrMap<PaneOthers>) -> BuildOptions<'a> {
    BuildOptions {
        pane_ts: empty,
        tab_ts: empty,
        ws_ts: empty,
        active_workspace_id: None,
        active_pane_id: None,
        active_tab_id: None,
        self_pane_id: None,
        others,
    }
}

#[test]
fn refresh_display_builds_then_reuses() {
    let mut state = AppState::new(mock_nodes());
    let empty = StrMap::new();
    let others = StrMap::new();
    let o = no_options(&empty, &others);
    assert!(state.cache_key.is_none());
    state.refresh_display(&o);
    assert_eq!(state.cached_total, 2, "two workspaces");
    assert_eq!(state.cached_displayed.len(), 2);
    let key = state.cache_key;
    assert!(key.is_some());
    state.refresh_display(&o);
    assert_eq!(state.cache_key, key);
    assert_eq!(state.cached_total, 2);
}

#[test]
fn refresh_display_searches_but_counts_all_rows() {
    let mut state = AppState::new(mock_nodes());
    let empty = StrMap::new();
    let others = StrMap::new();
    let o = no_options(&empty, &others);
    state.current_category = CategoryTab::Panes;
    state.search_query = "Backend".into();
    state.refresh_display(&o);
    assert_eq!(state.cached_total, 3);
    assert_eq!(state.cached_displayed.len(), 1);
    assert_eq!(state.cached_displayed[0].sort_key(), "pane-2");
}

#[test]
fn refresh_display_applies_active_only() {
    let mut state = AppState::new(mock_nodes());
    let empty = StrMap::new();
    let others = StrMap::new();
    let o = no_options(&empty, &others);
    state.active_only = true;
    state.refresh_display(&o);
    assert_eq!(state.cached_total, 0, "working agents need no attention");
    assert!(state.cached_displayed.is_empty());
}

#[test]
fn set_nodes_drops_the_cache() {
    let mut state = AppState::new(mock_nodes());
    let empty = StrMap::new();
    let others = StrMap::new();
    let o = no_options(&empty, &others);
    state.refresh_display(&o);
    assert!(state.cache_key.is_some());
    state.set_nodes(vec![node("pane-9", "ws-9", "Solo", "Only", None)]);
    assert!(state.cache_key.is_none());
    assert_eq!(state.nodes.len(), 1);
    state.refresh_display(&o);
    assert_eq!(state.cached_total, 1);
}
