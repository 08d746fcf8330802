use herdr_recent_navigator::cli::Cli;
use herdr_recent_navigator::models::{AgentStatus, CategoryTab, NavigationNode};
use herdr_recent_navigator::session::{
    category_from_state, category_state_text, derive_active_context, focus_records, open_session,
    plugin_context_from_json, plugin_event, startup_records, track_event, track_event_from_json, TrackEvent,
};
use herdr_recent_navigator::tracker::MruEntry;
use herdr_recent_navigator::session::PluginContext;
use herdr_recent_navigator::tracker::MruKind;

fn node(pane: &str, tab: &str, ws: &str, pane_name: Option<&str>) -> NavigationNode {
    NavigationNode {
        workspace_id: ws.into(),
        workspace_name: format!("{ws}-name"),
        tab_id: tab.into(),
        tab_name: format!("{tab}-name"),
        pane_id: pane.into(),
        pane_name: pane_name.map(String::from),
        agent_id: None,
        agent_status: AgentStatus::NoAgent,
        last_accessed_at: 0,
    }
}

#[test]
fn test_derive_active_context_no_env() {
    let ctx = derive_active_context(&[], None, None);
    assert!(ctx.workspace_id.is_none());
    assert!(ctx.pane_id.is_none());
    assert!(ctx.tab_id.is_none());
    assert!(ctx.theme_name.is_none());
}

#[test]
fn active_context_from_plugin_context() {
    let nodes = vec![node("p1", "t1", "w1", None), node("p2", "t2", "w1", None)];
    let ctx = derive_active_context(
        &nodes,
        Some("self".into()),
        Some(PluginContext {
            focused_workspace_id: None,
            workspace_id: Some(Some("w1".into())),
            focused_pane_id: Some(Some("p2".into())),
            theme_name: Some(Some("tokyonight-day".into())),
        }),
    );
    assert_eq!(ctx.workspace_id.as_deref(), Some("w1"));
    assert_eq!(ctx.pane_id.as_deref(), Some("p2"));
    assert_eq!(ctx.tab_id.as_deref(), Some("t2"));
    assert_eq!(ctx.self_pane_id.as_deref(), Some("self"));
    assert_eq!(ctx.theme_name.as_deref(), Some("tokyonight-day"));
}

#[test]
fn focused_workspace_key_wins_even_when_not_a_string() {
    let ctx = derive_active_context(
        &[],
        None,
        Some(PluginContext {
            focused_workspace_id: Some(None),
            workspace_id: Some(Some("w1".into())),
            focused_pane_id: None,
            theme_name: None,
        }),
    );
    assert!(ctx.workspace_id.is_none());
}

#[test]
fn track_events_become_records() {
    let pane = TrackEvent {
        event: Some("pane_focused".into()),
        has_data: true,
        workspace_id: Some("w".into()),
        pane_id: Some("p".into()),
        tab_id: None,
    };
    assert_eq!(track_event(&pane), Ok(Some((MruKind::Pane, "p".to_string(), "w".to_string()))));
    let ws = TrackEvent { event: Some("workspace_focused".into()), pane_id: None, ..pane.clone() };
    assert_eq!(track_event(&ws), Ok(Some((MruKind::Workspace, "w".to_string(), "w".to_string()))));
    let tab = TrackEvent { event: Some("tab_focused".into()), tab_id: None, ..pane.clone() };
    assert_eq!(track_event(&tab), Err("missing tab_id in tab.focused data".to_string()));
    let other = TrackEvent { event: Some("pane_closed".into()), ..pane.clone() };
    assert_eq!(track_event(&other), Ok(None));
    let no_event = TrackEvent { event: None, ..pane.clone() };
    assert_eq!(track_event(&no_event), Err("HERDR_PLUGIN_EVENT_JSON missing 'event' field".to_string()));
    let no_data = TrackEvent { has_data: false, ..pane.clone() };
    assert_eq!(track_event(&no_data), Err("HERDR_PLUGIN_EVENT_JSON missing 'data' field".to_string()));
    let no_ws = TrackEvent { workspace_id: None, ..pane };
    assert_eq!(track_event(&no_ws), Err("missing workspace_id in pane.focused data".to_string()));
}

#[test]
fn focus_state_is_three_records() {
    let r = focus_records("p", "t", "w", Some("P".into()), None, Some("W".into()));
    assert_eq!(r.len(), 3);
    assert_eq!((r[0].kind, r[0].id.as_str(), r[0].name.as_deref()), (MruKind::Pane, "p", Some("P")));
    assert_eq!((r[1].kind, r[1].id.as_str(), r[1].workspace_name.as_deref()), (MruKind::Tab, "t", Some("W")));
    assert_eq!((r[2].kind, r[2].id.as_str(), r[2].workspace_name.as_deref()), (MruKind::Workspace, "w", None));
}

#[test]
fn startup_records_take_names_from_nodes() {
    let nodes = vec![node("p1", "t1", "w1", None), node("p1", "t9", "w9", Some("second")), node("p2", "t1", "w1", Some("x"))];
    let r = startup_records(&nodes, "p1", "t1", "w1", "");
    assert_eq!(r[0].name.as_deref(), Some("second"));
    assert_eq!(r[1].name.as_deref(), Some("t1-name"));
    assert_eq!(r[2].name.as_deref(), Some("w1-name"));
    let r = startup_records(&nodes, "p1", "t1", "w1", "Label");
    assert_eq!(r[0].name.as_deref(), Some("Label"));
}

#[test]
fn last_category_round_trips() {
    for cat in CategoryTab::all() {
        let text = category_state_text(&cat).unwrap();
        assert_eq!(text, format!("\"{}\"", cat.label()));
        assert_eq!(category_from_state(&text), Some(cat));
    }
    assert_eq!(category_from_state("  \"Panes\"\n"), Some(CategoryTab::Panes));
    assert_eq!(category_from_state("Others"), None);
    assert_eq!(category_from_state(""), None);
}

fn mock_cli(view: Option<&str>) -> Cli {
    Cli { command: None, view: view.map(String::from), pane_open: false, mock: true, log_file: None }
}

fn sample_nodes() -> Vec<NavigationNode> {
    vec![
        node("pane-1", "ws-1:Main", "ws-1", Some("pane-1")),
        node("pane-2", "ws-2:Dev", "ws-2", Some("pane-2")),
        node("pane-3", "ws-3:Design", "ws-3", Some("pane-3")),
    ]
}

#[test]
fn test_run_inner_with_mock_data() {
    let cli = mock_cli(None);
    // Sample nodes, no focused pane, not connected, no recorded focus events.
    let session = open_session(&cli, sample_nodes(), None, false, &[], None, None);
    assert!(!session.state.nodes.is_empty(), "Mock data should produce nodes");
    assert!(!session.connected, "Mock mode should be disconnected");
    assert_eq!(session.state.current_category, CategoryTab::Workspaces);
    assert!(session.ctx.self_pane_id.is_none(), "No focused pane in mock mode");
    assert!(session.pane_ts.is_empty());
    assert!(session.tab_ts.is_empty());
    assert!(session.ws_ts.is_empty());
}

#[test]
fn test_open_session_view_remembered_and_theme() {
    let entries = vec![
        MruEntry {
            kind: MruKind::Pane,
            id: "pane-2".into(),
            workspace_id: "ws-2".into(),
            focused_at: 500,
            name: None,
            workspace_name: None,
        },
        MruEntry {
            kind: MruKind::Workspace,
            id: "ws-2".into(),
            workspace_id: "ws-2".into(),
            focused_at: 400,
            name: None,
            workspace_name: None,
        },
    ];
    let ctx = PluginContext {
        focused_workspace_id: None,
        workspace_id: Some(Some("ws-1".into())),
        focused_pane_id: Some(Some("pane-1".into())),
        theme_name: Some(Some("tokyonight-day".into())),
    };
    let session = open_session(
        &mock_cli(Some("agents")),
        sample_nodes(),
        Some("pane-3".into()),
        true,
        &entries,
        Some(ctx),
        Some(CategoryTab::Tabs),
    );
    assert!(session.connected);
    assert_eq!(session.state.current_category, CategoryTab::Agents);
    assert_eq!(session.state.theme_name.as_deref(), Some("tokyonight-day"));
    assert_eq!(session.ctx.workspace_id.as_deref(), Some("ws-1"));
    assert_eq!(session.ctx.pane_id.as_deref(), Some("pane-1"));
    assert_eq!(session.ctx.tab_id.as_deref(), Some("ws-1:Main"));
    assert_eq!(session.ctx.self_pane_id.as_deref(), Some("pane-3"));
    assert_eq!(session.pane_ts.get("pane-2"), Some(&500));
    assert_eq!(session.ws_ts.get("ws-2"), Some(&400));
    assert!(session.tab_ts.is_empty());
}

#[test]
fn test_open_session_remembered_category_without_view() {
    let session = open_session(&mock_cli(None), sample_nodes(), None, false, &[], None, Some(CategoryTab::Panes));
    assert_eq!(session.state.current_category, CategoryTab::Panes);
    assert!(session.state.theme_name.is_none());
}

#[test]
fn track_event_from_json_decides_from_the_payload() {
    assert_eq!(track_event_from_json("not json"), Err("Failed to parse HERDR_PLUGIN_EVENT_JSON".to_string()));
    assert_eq!(
        track_event_from_json(r#"{"event":"pane_focused","data":{"pane_id":"w1:p2","workspace_id":"w1"}}"#),
        Ok(Some((MruKind::Pane, "w1:p2".to_string(), "w1".to_string())))
    );
    assert_eq!(
        track_event_from_json(r#"{"event":"workspace_focused","data":{"workspace_id":"w3"}}"#),
        Ok(Some((MruKind::Workspace, "w3".to_string(), "w3".to_string())))
    );
    assert_eq!(
        track_event_from_json(r#"{"event":"tab_focused","data":{"tab_id":7,"workspace_id":"w1"}}"#),
        Err("missing tab_id in tab.focused data".to_string())
    );
    assert_eq!(
        track_event_from_json(r#"{"data":{}}"#),
        Err("HERDR_PLUGIN_EVENT_JSON missing 'event' field".to_string())
    );
    assert_eq!(
        track_event_from_json(r#"{"event":"pane_focused"}"#),
        Err("HERDR_PLUGIN_EVENT_JSON missing 'data' field".to_string())
    );
    assert_eq!(track_event_from_json(r#"{"event":"pane_closed","data":{}}"#), Ok(None));
}

#[test]
fn plugin_event_reads_the_fields() {
    let e = plugin_event(r#"{"event":"tab_focused","data":{"tab_id":"t1","workspace_id":"w1"}}"#);
    assert_eq!(e.event.as_deref(), Some("tab_focused"));
    assert!(e.has_data);
    assert_eq!(e.tab_id.as_deref(), Some("t1"));
    assert_eq!(e.workspace_id.as_deref(), Some("w1"));
    assert_eq!(e.pane_id, None);
}

#[test]
fn plugin_context_from_json_keeps_absent_and_non_string_apart() {
    assert!(plugin_context_from_json("{oops").is_none());
    let c = plugin_context_from_json(r#"{"focused_workspace_id":null,"workspace_id":"w2","theme_name":"tokyonight-day"}"#)
        .unwrap();
    assert_eq!(c.focused_workspace_id, Some(None));
    assert_eq!(c.workspace_id, Some(Some("w2".to_string())));
    assert_eq!(c.focused_pane_id, None);
    assert_eq!(c.theme_name, Some(Some("tokyonight-day".to_string())));
}
