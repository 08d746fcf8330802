use herdr_recent_navigator::herdr::{
    args_to_method, fetch_all_nodes, fetch_focused_pane_info, fetch_tab_name, fetch_workspace_name,
    focus_pane, focus_tab, focus_workspace, AgentStatusWire, PaneInfo, RpcParam, TabInfo, WorkspaceInfo,
    close_pane, extract_pane_id, herdr_bin, open_pane, plugin_id, sock_path,
};
use herdr_recent_navigator::models::AgentStatus;

fn ws(id: &str, label: &str) -> WorkspaceInfo {
    WorkspaceInfo { workspace_id: id.into(), label: label.into() }
}

fn tab(id: &str, ws: &str, label: Option<&str>) -> TabInfo {
    TabInfo { tab_id: id.into(), workspace_id: ws.into(), label: label.map(String::from) }
}

fn pane(id: &str, ws: &str, tab: &str, focused: bool, label: Option<&str>) -> PaneInfo {
    PaneInfo {
        pane_id: id.into(),
        workspace_id: ws.into(),
        tab_id: tab.into(),
        focused,
        label: label.map(String::from),
        agent: None,
        agent_status: None,
        title: None,
    }
}

#[test]
fn test_fetch_all_nodes_parses_valid_response() {
    let (nodes, focused) = fetch_all_nodes(
        Ok(vec![ws("ws-1", "MyWS")]),
        Some(vec![tab("tab-1", "ws-1", Some("MyTab"))]),
        Some(vec![pane("pane-1", "ws-1", "tab-1", false, Some("MyPane"))]),
    )
    .unwrap();
    assert_eq!(nodes.len(), 1);
    assert_eq!(nodes[0].workspace_name, "MyWS");
    assert_eq!(nodes[0].tab_name, "MyTab");
    assert_eq!(nodes[0].pane_name.as_deref(), Some("MyPane"));
    assert!(focused.is_none(), "No focused pane in this test");
}

#[test]
fn test_fetch_all_nodes_empty_lists() {
    let (nodes, focused) = fetch_all_nodes(Ok(vec![]), Some(vec![]), Some(vec![])).unwrap();
    assert!(nodes.is_empty(), "Empty lists should produce empty nodes");
    assert!(focused.is_none());
}

#[test]
fn test_fetch_all_nodes_missing_fields_use_defaults() {
    let (nodes, _) = fetch_all_nodes(
        Ok(vec![ws("ws-1", "WS")]),
        Some(vec![tab("tab-1", "ws-1", None)]),
        Some(vec![pane("pane-1", "ws-1", "tab-1", false, None)]),
    )
    .unwrap();
    assert_eq!(nodes[0].pane_name.as_deref(), Some("untitled"));
    assert_eq!(nodes[0].tab_name, "tab-tab-1");
}

#[test]
fn test_fetch_all_nodes_detects_focused_pane() {
    let (_, focused) = fetch_all_nodes(
        Ok(vec![ws("ws-1", "WS")]),
        Some(vec![tab("tab-1", "ws-1", Some("ActiveTab"))]),
        Some(vec![pane("pane-1", "ws-1", "tab-1", true, Some("ActivePane"))]),
    )
    .unwrap();
    assert!(focused.is_some());
    let f = focused.unwrap();
    assert_eq!(f.pane_id, "pane-1");
    assert_eq!(f.label, "ActivePane");
}

#[test]
fn test_fetch_focused_pane_info_no_focused_returns_error() {
    let result = fetch_focused_pane_info(Ok(vec![pane("p-1", "", "", false, None)]));
    assert!(result.is_err(), "No focused pane should return error");
    assert_eq!(result.unwrap_err(), "No focused pane in pane list");
}

#[test]
fn fetch_all_nodes_passes_on_workspace_list_failure() {
    let r = fetch_all_nodes(Err("herdr not running".into()), None, None);
    assert_eq!(r.unwrap_err(), "herdr not running");
}

#[test]
fn fetch_all_nodes_unlisted_tab_and_agent_status() {
    let mut p = pane("pane-9", "ws-2", "w2:t7", false, Some(""));
    p.title = Some("vim".into());
    p.agent = Some("agent-x".into());
    p.agent_status = Some(AgentStatusWire::Blocked);
    let mut q = pane("pane-8", "ws-2", "w2:t7", false, Some(""));
    q.agent_status = Some(AgentStatusWire::Unknown);
    let (nodes, _) = fetch_all_nodes(Ok(vec![]), None, Some(vec![p, q])).unwrap();
    assert_eq!(nodes[0].workspace_name, "");
    assert_eq!(nodes[0].tab_name, "tab-t7");
    // An empty label wins over the title and is then replaced.
    assert_eq!(nodes[0].pane_name.as_deref(), Some("untitled"));
    assert_eq!(nodes[0].agent_id.as_deref(), Some("agent-x"));
    assert_eq!(nodes[0].agent_status, AgentStatus::Blocked);
    assert_eq!(nodes[1].agent_status, AgentStatus::NoAgent);
}

#[test]
fn focused_pane_info_uses_title_when_no_label() {
    let mut p = pane("p-2", "w", "t", true, None);
    p.title = Some("htop".into());
    let (pid, tid, wid, label) = fetch_focused_pane_info(Ok(vec![pane("p-1", "w", "t", false, None), p])).unwrap();
    assert_eq!((pid.as_str(), tid.as_str(), wid.as_str(), label.as_str()), ("p-2", "t", "w", "htop"));
    assert_eq!(fetch_focused_pane_info(Err("down".into())).unwrap_err(), "down");
}

#[test]
fn single_name_lookups() {
    let tabs = vec![tab("t1", "w", Some("First")), tab("t1", "w", Some("Second")), tab("t2", "w", None)];
    assert_eq!(fetch_tab_name(Some(tabs.clone()), "t1"), Some("First".to_string()));
    assert_eq!(fetch_tab_name(Some(tabs), "t2"), None);
    assert_eq!(fetch_tab_name(None, "t1"), None);
    let wss = vec![ws("w1", "One"), ws("w2", "Two")];
    assert_eq!(fetch_workspace_name(Some(wss), "w2"), Some("Two".to_string()));
    assert_eq!(fetch_workspace_name(None, "w2"), None);
}

#[test]
fn agent_status_from_wire() {
    assert_eq!(AgentStatus::from(AgentStatusWire::Working), AgentStatus::Working);
    assert_eq!(AgentStatus::from(AgentStatusWire::Unknown), AgentStatus::NoAgent);
}

#[test]
fn socket_requests_for_command_lines() {
    let r = args_to_method(&["pane", "zoom", "p-1", "--off"]).unwrap();
    assert_eq!(r.method, "pane.zoom");
    assert_eq!(r.params.len(), 2);
    assert_eq!(r.params[0].0, "pane_id");
    assert!(matches!(&r.params[0].1, RpcParam::Text(s) if s == "p-1"));
    assert!(matches!(r.params[1].1, RpcParam::Flag(true)));
    let l = args_to_method(&["tab", "list", "--workspace", "w-3"]).unwrap();
    assert_eq!(l.method, "tab.list");
    assert!(matches!(&l.params[0].1, RpcParam::Text(s) if s == "w-3"));
    assert_eq!(args_to_method(&["workspace", "list"]).unwrap().method, "workspace.list");
    assert!(args_to_method(&["workspace", "list"]).unwrap().params.is_empty());
    assert!(args_to_method(&["plugin", "pane", "close"]).is_none());
}

#[test]
fn focus_commands() {
    assert_eq!(focus_workspace("ws-1"), vec!["workspace", "focus", "ws-1"]);
    assert_eq!(focus_tab("t-1"), vec!["tab", "focus", "t-1"]);
    assert_eq!(focus_pane("p-1"), vec!["pane", "zoom", "p-1", "--off"]);
}

#[test]
fn test_extract_pane_id_valid() {
    let json = r#"{"id":"1","result":{"plugin_pane":{"pane":{"pane_id":"w1:p2"}}}}"#;
    assert_eq!(extract_pane_id(json), Some("w1:p2".into()));
}

#[test]
fn test_extract_pane_id_missing_fields() {
    let json = r#"{"id":"1"}"#;
    assert_eq!(extract_pane_id(json), None);
}

#[test]
fn test_extract_pane_id_invalid_json() {
    assert_eq!(extract_pane_id("not json"), None);
}

#[test]
fn extract_pane_id_needs_a_string() {
    let json = r#"{"result":{"plugin_pane":{"pane":{"pane_id":7}}}}"#;
    assert_eq!(extract_pane_id(json), None);
}

#[test]
fn plugin_id_defaults() {
    assert_eq!(plugin_id(None), "recent-navigator");
    assert_eq!(plugin_id(Some(String::new())), "recent-navigator");
    assert_eq!(plugin_id(Some("my-plugin".into())), "my-plugin");
}

#[test]
fn close_pane_trims_lock_text() {
    assert_eq!(close_pane("  w1:p2\n"), vec!["plugin", "pane", "close", "w1:p2"]);
}

#[test]
fn open_pane_args_for_plugin() {
    assert_eq!(
        open_pane("recent-navigator"),
        vec![
            "plugin",
            "pane",
            "open",
            "--plugin",
            "recent-navigator",
            "--entrypoint",
            "navigator",
            "--placement",
            "popup",
            "--focus"
        ]
    );
}

#[test]
fn herdr_bin_defaults_to_path_lookup() {
    assert_eq!(herdr_bin(None), "herdr");
    assert_eq!(herdr_bin(Some(String::new())), "herdr");
    assert_eq!(herdr_bin(Some("/opt/herdr/bin/herdr".into())), "/opt/herdr/bin/herdr");
}

#[test]
fn sock_path_ignores_empty_value() {
    assert_eq!(sock_path(None), None);
    assert_eq!(sock_path(Some(String::new())), None);
    assert_eq!(sock_path(Some("/tmp/herdr.sock".into())), Some("/tmp/herdr.sock".to_string()));
}
