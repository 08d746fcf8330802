use herdr_recent_navigator::models::{
    Action, AgentStatus, CategoryTab, KeyBinding, KeyCode, KeyModifiers, KeyPress, Keybindings,
};

// ── CategoryTab::from_str ──

#[test]
fn test_category_tab_from_str_workspaces() {
    assert_eq!("workspaces".parse::<CategoryTab>().unwrap(), CategoryTab::Workspaces);
}

#[test]
fn test_category_tab_from_str_tabs() {
    assert_eq!("tabs".parse::<CategoryTab>().unwrap(), CategoryTab::Tabs);
}

#[test]
fn test_category_tab_from_str_agents() {
    assert_eq!("agents".parse::<CategoryTab>().unwrap(), CategoryTab::Agents);
}

#[test]
fn test_category_tab_from_str_panes() {
    assert_eq!("panes".parse::<CategoryTab>().unwrap(), CategoryTab::Panes);
}

#[test]
fn test_category_tab_from_str_invalid() {
    assert!("invalid".parse::<CategoryTab>().is_err());
}

#[test]
fn test_category_tab_from_str_case_sensitive() {
    assert!("Workspaces".parse::<CategoryTab>().is_err());
}

#[test]
fn category_tab_error_names_the_input() {
    assert_eq!(
        CategoryTab::parse("bogus"),
        Err("Unknown category tab: bogus".to_string())
    );
}

// ── AgentStatus::is_active ──

#[test]
fn test_agent_status_is_active_working() {
    assert!(AgentStatus::Working.is_active());
}

#[test]
fn test_agent_status_is_active_done() {
    assert!(!AgentStatus::Done.is_active());
}

#[test]
fn test_agent_status_is_active_blocked() {
    assert!(!AgentStatus::Blocked.is_active());
}

#[test]
fn test_agent_status_is_active_idle() {
    assert!(!AgentStatus::Idle.is_active());
}

#[test]
fn test_agent_status_is_active_none() {
    assert!(!AgentStatus::NoAgent.is_active());
}

// ── CategoryTab cycling ──

#[test]
fn next_and_previous_wrap_within_enabled_tabs() {
    let all = CategoryTab::all();
    assert_eq!(CategoryTab::Agents.next_in(&all), CategoryTab::Workspaces);
    assert_eq!(CategoryTab::Workspaces.previous_in(&all), CategoryTab::Agents);
    assert_eq!(CategoryTab::Tabs.next_in(&all), CategoryTab::Panes);
    // A tab that is not enabled moves to the first enabled one.
    assert_eq!(CategoryTab::Others.next_in(&all), CategoryTab::Workspaces);
    assert_eq!(CategoryTab::Others.previous_in(&all), CategoryTab::Workspaces);
}

#[test]
fn next_then_previous_is_identity() {
    let all = CategoryTab::all();
    for t in all {
        assert_eq!(t.next_in(&all).previous_in(&all), t);
        assert_eq!(t.previous_in(&all).next_in(&all), t);
    }
}

#[test]
fn labels_of_all_tabs() {
    assert_eq!(CategoryTab::Workspaces.label(), "Workspaces");
    assert_eq!(CategoryTab::Others.label(), "Others");
    assert_eq!(CategoryTab::All.label(), "All");
}

// ── Key bindings ──

#[test]
fn parses_modified_key_binding() {
    let b: KeyBinding = "C-n".parse().unwrap();
    assert_eq!(b.code, KeyCode::Char('n'));
    assert_eq!(
        b.modifiers,
        KeyModifiers { control: true, shift: false, alt: false, extra: false }
    );
}

#[test]
fn parses_named_key_binding() {
    let b: KeyBinding = "Tab".parse().unwrap();
    assert_eq!(b.code, KeyCode::Tab);
    assert_eq!(b.modifiers, KeyModifiers::none());
}

#[test]
fn rejects_unknown_key_binding() {
    assert!("NotAKey".parse::<KeyBinding>().is_err());
}

#[test]
fn default_bindings_map_keys_to_actions() {
    let k = Keybindings::default();
    let ctrl_c = KeyPress {
        code: KeyCode::Char('c'),
        modifiers: KeyModifiers { control: true, shift: false, alt: false, extra: false },
    };
    assert_eq!(k.action_for(&ctrl_c), Some(Action::ForceQuit));
    let enter = KeyPress { code: KeyCode::Enter, modifiers: KeyModifiers::none() };
    assert_eq!(k.action_for(&enter), Some(Action::Select));
    let x = KeyPress { code: KeyCode::Char('x'), modifiers: KeyModifiers::none() };
    assert_eq!(k.action_for(&x), None);
}
