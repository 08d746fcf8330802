use herdr_recent_navigator::models::{
    AgentStatus, CategoryTab, DisplayItem, NavigationNode, OtherSource, PaneOthers,
};
use herdr_recent_navigator::mru::{
    build_cache_key, build_content_items, build_display_list, filter_active_only, match_indices, rank_items,
    search_display_items, sorted_positions, try_build_content_items, BuildOptions,
};
use herdr_recent_navigator::strmap::StrMap;
use nucleo_matcher::pattern::{CaseMatching, Normalization, Pattern};
use nucleo_matcher::{Config, Matcher, Utf32Str};

fn make_node(
    pane_id: &str,
    workspace_id: &str,
    workspace_name: &str,
    tab_name: &str,
    agent_status: AgentStatus,
    last_accessed_at: u64,
    agent_id: Option<&str>,
) -> NavigationNode {
    NavigationNode {
        workspace_id: workspace_id.into(),
        workspace_name: workspace_name.into(),
        tab_id: format!("tab-{}", pane_id),
        tab_name: tab_name.into(),
        pane_id: pane_id.into(),
        pane_name: Some(pane_id.into()),
        agent_id: agent_id.map(String::from),
        agent_status,
        last_accessed_at,
    }
}

fn sample_nodes() -> Vec<NavigationNode> {
    vec![
        make_node("pane-1", "ws-1", "Auth-Service", "Main", AgentStatus::Working, 5000, Some("agent-1")),
        make_node("pane-2", "ws-2", "Backend-Repo", "Dev", AgentStatus::Blocked, 4000, Some("agent-2")),
        make_node("pane-3", "ws-3", "Frontend-UI", "Design", AgentStatus::Done, 3000, Some("agent-3")),
        make_node("pane-4", "ws-1", "Auth-Service", "Config", AgentStatus::Idle, 2000, None),
        make_node("pane-5", "ws-4", "Infra-Deploy", "Prod", AgentStatus::NoAgent, 1000, None),
    ]
}

fn opts<'a>(
    empty: &'a StrMap<u64>,
    others: &'a StrMap<PaneOthers>,
    ws: Option<&'a str>,
    pane: Option<&'a str>,
    tab: Option<&'a str>,
) -> BuildOptions<'a> {
    BuildOptions {
        pane_ts: empty,
        tab_ts: empty,
        ws_ts: empty,
        active_workspace_id: ws,
        active_pane_id: pane,
        active_tab_id: tab,
        self_pane_id: None,
        others,
    }
}

#[test]
fn test_exclude_active_workspace() {
    let nodes = sample_nodes();
    let empty = StrMap::new();
    let empty_others = StrMap::new();
    let o = opts(&empty, &empty_others, Some("ws-1"), None, None);
    let items = build_display_list(&nodes, &o, &CategoryTab::Workspaces);
    assert!(
        !items
            .iter()
            .any(|item| matches!(item, DisplayItem::Workspace { id, .. } if id == "ws-1")),
        "Active workspace 'ws-1' should be excluded from Workspaces tab"
    );
    assert_eq!(items.len(), 3, "3 workspaces should remain after excluding ws-1");
}

#[test]
fn test_selected_index_defaults_to_zero() {
    let clamped = 0;
    assert_eq!(clamped, 0, "Default selected index should be 0");
}

#[test]
fn test_build_workspace_items() {
    let nodes = sample_nodes();
    let empty = StrMap::new();
    let empty_others = StrMap::new();
    let o = opts(&empty, &empty_others, None, None, None);
    let items = build_display_list(&nodes, &o, &CategoryTab::Workspaces);
    let first = &items[0];
    if let DisplayItem::Workspace { name, pane_ids, agent_statuses, .. } = first {
        assert_eq!(name, "Auth-Service", "Most recent workspace first");
        assert_eq!(pane_ids.len(), 2, "Auth-Service has 2 panes");
        assert_eq!(agent_statuses.len(), 1, "Auth-Service has 1 agent");
    } else {
        panic!("Expected Workspace item");
    }
    let last = &items[3];
    if let DisplayItem::Workspace { name, agent_statuses, .. } = last {
        assert_eq!(name, "Infra-Deploy");
        assert_eq!(agent_statuses.len(), 0, "Infra-Deploy has 0 agents");
    } else {
        panic!("Expected Workspace item");
    }
}

#[test]
fn test_build_agent_items() {
    let nodes = sample_nodes();
    let empty = StrMap::new();
    let empty_others = StrMap::new();
    let o = opts(&empty, &empty_others, None, None, None);
    let items = build_display_list(&nodes, &o, &CategoryTab::Agents);
    assert_eq!(items.len(), 3, "3 agent nodes");
    for item in &items {
        if let DisplayItem::Agent { agent_id, .. } = item {
            assert!(!agent_id.is_empty());
        } else {
            panic!("Expected Agent item");
        }
    }
}

#[test]
fn test_build_pane_items() {
    let nodes = sample_nodes();
    let empty = StrMap::new();
    let empty_others = StrMap::new();
    let o = opts(&empty, &empty_others, None, None, None);
    let items = build_display_list(&nodes, &o, &CategoryTab::Panes);
    assert_eq!(items.len(), 5, "5 pane items");
}

#[test]
fn test_exclude_active_tab_keeps_same_workspace_tabs() {
    let nodes = sample_nodes();
    let empty = StrMap::new();
    let empty_others = StrMap::new();
    let o = opts(&empty, &empty_others, None, None, Some("tab-pane-1"));
    let items = build_display_list(&nodes, &o, &CategoryTab::Tabs);
    let remaining_names: Vec<&str> = items
        .iter()
        .filter_map(|item| {
            if let DisplayItem::Tab { name, .. } = item {
                Some(name.as_str())
            } else {
                None
            }
        })
        .collect();
    assert!(!remaining_names.contains(&"Main"), "Excluded tab 'Main' should not appear");
    assert!(
        remaining_names.contains(&"Config"),
        "Other tab 'Config' in same workspace should still appear"
    );
}

#[test]
fn test_exclude_active_pane_keeps_other_panes() {
    let nodes = sample_nodes();
    let empty = StrMap::new();
    let empty_others = StrMap::new();
    let o = opts(&empty, &empty_others, None, Some("pane-1"), None);
    let items = build_display_list(&nodes, &o, &CategoryTab::Panes);
    assert_eq!(items.len(), 4, "4 panes after excluding pane-1");
    assert!(
        !items.iter().any(|item| matches!(item, DisplayItem::Pane { pane_id, .. } if pane_id == "pane-1")),
        "Excluded pane should not appear"
    );
}

#[test]
fn test_exclude_active_pane_from_agents() {
    let nodes = sample_nodes();
    let empty = StrMap::new();
    let empty_others = StrMap::new();
    let o = opts(&empty, &empty_others, None, Some("pane-1"), None);
    let items = build_display_list(&nodes, &o, &CategoryTab::Agents);
    assert_eq!(items.len(), 2, "2 agents after excluding pane-1's agent");
    assert!(
        !items.iter().any(|item| {
            if let DisplayItem::Agent { agent_id, .. } = item {
                agent_id == "agent-1"
            } else {
                false
            }
        }),
        "Agent in excluded pane should not appear"
    );
}

#[test]
fn test_build_display_list_deterministic() {
    let nodes = sample_nodes();
    let empty = StrMap::new();
    let empty_others = StrMap::new();
    let o = opts(&empty, &empty_others, None, None, None);
    let a = build_display_list(&nodes, &o, &CategoryTab::Workspaces);
    let b = build_display_list(&nodes, &o, &CategoryTab::Workspaces);
    assert_eq!(a.len(), b.len(), "Same inputs should produce same length");
    for (x, y) in a.iter().zip(b.iter()) {
        assert_eq!(x.sort_key(), y.sort_key(), "Items should be in same order");
    }
}

// ── Others tab ──

fn others_map() -> StrMap<PaneOthers> {
    let mut map: StrMap<PaneOthers> = StrMap::new();
    map.insert(
        "pane-4".into(),
        PaneOthers {
            cwd: Some("/repo/auth/config".into()),
            command: Some("ssh -p 2222 deploy@10.1.2.3".into()),
            ssh_target: Some("deploy@10.1.2.3:2222".into()),
        },
    );
    map.insert(
        "pane-5".into(),
        PaneOthers { cwd: Some("/infra/prod".into()), command: Some("-zsh".into()), ssh_target: None },
    );
    map
}

#[test]
fn test_build_other_items_records_and_excludes() {
    let nodes = sample_nodes();
    let empty = StrMap::new();
    let others = others_map();
    let o = opts(&empty, &others, None, None, None);
    let items = build_display_list(&nodes, &o, &CategoryTab::Others);
    assert_eq!(items.len(), 4);
    for item in &items {
        if let DisplayItem::Other { pane_id, .. } = item {
            assert!(
                !matches!(pane_id.as_str(), "pane-1" | "pane-2" | "pane-3"),
                "agent panes must be excluded from Others"
            );
        } else {
            panic!("Expected Other item");
        }
    }
    let pane4_sources: Vec<OtherSource> = items
        .iter()
        .filter_map(|it| match it {
            DisplayItem::Other { pane_id, source, .. } if pane_id == "pane-4" => Some(*source),
            _ => None,
        })
        .collect();
    assert_eq!(pane4_sources, vec![OtherSource::Ssh, OtherSource::Cmd, OtherSource::Cwd]);
}

#[test]
fn test_build_other_items_context_column() {
    let nodes = sample_nodes();
    let empty = StrMap::new();
    let others = others_map();
    let o = opts(&empty, &others, None, None, None);
    let items = build_display_list(&nodes, &o, &CategoryTab::Others);
    let ctx_of = |pane: &str, src: OtherSource| -> String {
        items
            .iter()
            .filter_map(|it| match it {
                DisplayItem::Other { pane_id, source, context, .. } if pane_id == pane && *source == src => {
                    Some(context.clone())
                }
                _ => None,
            })
            .next()
            .unwrap_or_default()
    };
    assert_eq!(ctx_of("pane-4", OtherSource::Ssh), "10.1.2.3:2222");
    assert_eq!(ctx_of("pane-4", OtherSource::Cmd), "/repo/auth/config");
    assert_eq!(ctx_of("pane-5", OtherSource::Cwd), "-");
}

#[test]
fn test_build_content_items_matches_and_excludes() {
    let nodes = sample_nodes();
    let empty = StrMap::new();
    let mut contents: StrMap<String> = StrMap::new();
    contents.insert("pane-4".to_string(), "Started DeployService on 8081\nnext line\n".to_string());
    contents.insert("pane-3".to_string(), "hot text here\n".to_string());
    let mut others: StrMap<PaneOthers> = StrMap::new();
    others.insert(
        "pane-4".into(),
        PaneOthers { cwd: None, command: Some("nvim src/main.rs".into()), ssh_target: None },
    );
    others.insert("pane-5".into(), PaneOthers { cwd: None, command: Some("-zsh".into()), ssh_target: None });

    let items = build_content_items(&nodes, &contents, &others, &empty, None, Some("pane-5"), "deployservice");
    assert_eq!(items.len(), 1);
    let item = &items[0];
    match item {
        DisplayItem::Other { pane_id, source, detail, context, .. } => {
            assert_eq!(pane_id, "pane-4");
            assert_eq!(*source, OtherSource::File);
            assert!(detail.eq_ignore_ascii_case("started deployservice on 8081"));
            assert_eq!(context, "src/main.rs", "file context = edited path (no cwd known)");
        }
        _ => panic!("expected Other item"),
    }

    contents.insert("pane-5".to_string(), "deploy failed: connection refused\n".to_string());
    let items = build_content_items(&nodes, &contents, &others, &empty, None, None, "deploy");
    let pane5 = items
        .iter()
        .find(|it| matches!(it, DisplayItem::Other { pane_id, .. } if pane_id == "pane-5"))
        .expect("pane-5 matched");
    assert_eq!(
        match pane5 {
            DisplayItem::Other { source, .. } => *source,
            _ => unreachable!(),
        },
        OtherSource::Terminal
    );

    let items = build_content_items(&nodes, &contents, &others, &empty, None, Some("pane-5"), "zzz-no");
    assert!(items.is_empty());

    let items = build_content_items(&nodes, &StrMap::new(), &others, &empty, None, Some("pane-5"), "deployservice");
    assert!(items.is_empty());
}

#[test]
fn test_build_content_items_file_context() {
    let nodes = sample_nodes();
    let empty = StrMap::new();
    let mut contents: StrMap<String> = StrMap::new();
    contents.insert("pane-4".to_string(), "deploy the service\n".to_string());
    let mut others: StrMap<PaneOthers> = StrMap::new();
    others.insert(
        "pane-4".into(),
        PaneOthers {
            cwd: Some("/repo/auth".into()),
            command: Some("nvim +328 src/main.rs".into()),
            ssh_target: None,
        },
    );
    let items = build_content_items(&nodes, &contents, &others, &empty, None, None, "deploy");
    assert_eq!(items.len(), 1);
    match &items[0] {
        DisplayItem::Other { source, context, .. } => {
            assert_eq!(*source, OtherSource::File);
            assert_eq!(context, "/repo/auth/src/main.rs:328");
        }
        _ => panic!("expected Other item"),
    }

    others.insert("pane-5".into(), PaneOthers { cwd: None, command: Some("hx".into()), ssh_target: None });
    contents.insert("pane-5".to_string(), "term output deploy\n".to_string());
    let items = build_content_items(&nodes, &contents, &others, &empty, None, None, "deploy");
    let pane5 = items
        .iter()
        .find(|it| matches!(it, DisplayItem::Other { pane_id, .. } if pane_id == "pane-5"))
        .expect("pane-5 matched");
    assert_eq!(
        match pane5 {
            DisplayItem::Other { context, .. } => context.as_str(),
            _ => unreachable!(),
        },
        "-"
    );
}

#[test]
fn test_shell_prompt_title_overrides_editor_command() {
    let mut nodes = sample_nodes();
    nodes.push(NavigationNode {
        workspace_id: "ws-5".into(),
        workspace_name: "Ops".into(),
        tab_id: "tab-pane-6".into(),
        tab_name: "Main".into(),
        pane_id: "pane-6".into(),
        pane_name: Some("user@192.168.4.1:~/ops/logs".into()),
        agent_id: None,
        agent_status: AgentStatus::NoAgent,
        last_accessed_at: 900,
    });
    let empty = StrMap::new();
    let mut contents: StrMap<String> = StrMap::new();
    contents.insert("pane-6".to_string(), "ERROR: auth token expired\n".to_string());
    let mut others: StrMap<PaneOthers> = StrMap::new();
    others.insert("pane-6".into(), PaneOthers { cwd: None, command: Some("vim dump.log".into()), ssh_target: None });
    let items = build_content_items(&nodes, &contents, &others, &empty, None, None, "token");
    assert_eq!(items.len(), 1);
    assert_eq!(
        match &items[0] {
            DisplayItem::Other { source, .. } => *source,
            _ => unreachable!(),
        },
        OtherSource::Terminal
    );
}

#[test]
fn test_other_search_prioritizes_detail_column() {
    let items: Vec<DisplayItem> = vec![
        DisplayItem::Other {
            pane_id: "p-detail".into(),
            pane_name: "p-detail".into(),
            tab: "main".into(),
            workspace: "main".into(),
            source: OtherSource::Ssh,
            detail: "ssh -p 2222 deploy@app-server-01".into(),
            context: "-".into(),
            last_accessed_at: 2000,
        },
        DisplayItem::Other {
            pane_id: "p-workspace".into(),
            pane_name: "p-workspace".into(),
            tab: "main".into(),
            workspace: "app-server-01-prod".into(),
            source: OtherSource::Cmd,
            detail: "tail -f /var/log/app.log".into(),
            context: "-".into(),
            last_accessed_at: 1000,
        },
    ];
    let pattern = Pattern::parse("app-server-01", CaseMatching::Ignore, Normalization::Smart);
    let mut matcher = Matcher::new(Config::DEFAULT);
    let mut buf = Vec::new();
    let full = pattern
        .score(Utf32Str::new(&items[1].search_text(), &mut buf), &mut matcher)
        .unwrap();
    let mut dbuf = Vec::new();
    let detail_text = match &items[0] {
        DisplayItem::Other { detail, .. } => detail.as_str(),
        _ => unreachable!(),
    };
    let detail = pattern.score(Utf32Str::new(detail_text, &mut dbuf), &mut matcher).unwrap();
    assert!(full > detail, "precondition: workspace full-text hit outranks detail");

    let ranked = search_display_items(&items, "app-server-01");
    assert_eq!(ranked.len(), 2);
    let first = match &ranked[0] {
        DisplayItem::Other { detail, .. } => detail.as_str(),
        _ => unreachable!(),
    };
    assert!(first.contains("deploy@"), "detail column match must rank first, got: {first}");
}

#[test]
fn test_other_search_text_includes_source_label() {
    let others = others_map();
    let node = make_node("pane-4", "ws-1", "Auth-Service", "Config", AgentStatus::Idle, 2000, None);
    let empty = StrMap::new();
    let o = opts(&empty, &others, None, None, None);
    let records = build_display_list(&[node], &o, &CategoryTab::Others);
    let ssh_record = records
        .iter()
        .find(|r| matches!(r, DisplayItem::Other { source: OtherSource::Ssh, .. }))
        .expect("ssh record exists");
    let text = ssh_record.search_text();
    assert!(text.starts_with("ssh "), "source label first: {text}");
    assert!(text.contains("deploy@10.1.2.3:2222"));
}

#[test]
fn test_match_indices_no_panic_on_regression_text() {
    let text = "ERROR: Repository not found.";
    let idx = match_indices(text, "Rep");
    assert!(!idx.is_empty(), "Rep is present in {text:?}");
    let needles = ["R", "Re", "Rep", "th", "thers", "Others"];
    for q in needles {
        let _ = match_indices(text, q);
    }
}

#[test]
fn test_match_indices_is_case_insensitive() {
    assert_eq!(match_indices("Permission denied", "permission"), vec![0, 1, 2, 3, 4, 5, 6, 7, 8, 9]);
    assert_eq!(match_indices("Permission denied", "PERMISSION"), vec![0, 1, 2, 3, 4, 5, 6, 7, 8, 9]);
    assert_eq!(match_indices("Others", "others"), vec![0, 1, 2, 3, 4, 5]);
    assert_eq!(match_indices("others", "Others"), vec![0, 1, 2, 3, 4, 5]);
}

// ── Ordering, keys and ranking ──

#[test]
fn mru_order_newest_first_then_sort_key() {
    let nodes = sample_nodes();
    let mut pane_ts: StrMap<u64> = StrMap::new();
    pane_ts.insert("pane-5".into(), 900);
    pane_ts.insert("pane-2".into(), 900);
    pane_ts.insert("pane-3".into(), 100);
    let empty = StrMap::new();
    let empty_others = StrMap::new();
    let o = BuildOptions {
        pane_ts: &pane_ts,
        tab_ts: &empty,
        ws_ts: &empty,
        active_workspace_id: None,
        active_pane_id: None,
        active_tab_id: None,
        self_pane_id: None,
        others: &empty_others,
    };
    let items = build_display_list(&nodes, &o, &CategoryTab::Panes);
    let order: Vec<String> = items.iter().map(|i| i.sort_key()).collect();
    assert_eq!(order, vec!["pane-2", "pane-5", "pane-3", "pane-1", "pane-4"]);
}

#[test]
fn tab_recency_falls_back_to_latest_pane_focus() {
    let nodes = vec![
        make_node("pane-a", "ws-1", "W", "Alpha", AgentStatus::NoAgent, 0, None),
        make_node("pane-b", "ws-1", "W", "Beta", AgentStatus::NoAgent, 0, None),
    ];
    let mut pane_ts: StrMap<u64> = StrMap::new();
    pane_ts.insert("pane-b".into(), 700);
    let mut tab_ts: StrMap<u64> = StrMap::new();
    tab_ts.insert("tab-pane-a".into(), 500);
    let empty = StrMap::new();
    let empty_others = StrMap::new();
    let o = BuildOptions {
        pane_ts: &pane_ts,
        tab_ts: &tab_ts,
        ws_ts: &empty,
        active_workspace_id: None,
        active_pane_id: None,
        active_tab_id: None,
        self_pane_id: None,
        others: &empty_others,
    };
    let items = build_display_list(&nodes, &o, &CategoryTab::Tabs);
    let names: Vec<String> = items
        .iter()
        .map(|i| match i {
            DisplayItem::Tab { name, last_accessed_at, .. } => format!("{name}:{last_accessed_at}"),
            _ => panic!("expected Tab"),
        })
        .collect();
    assert_eq!(names, vec!["Beta:700", "Alpha:500"]);
}

#[test]
fn all_category_lists_every_kind_in_order() {
    let nodes = sample_nodes();
    let empty = StrMap::new();
    let empty_others = StrMap::new();
    let o = opts(&empty, &empty_others, None, None, None);
    let all = build_display_list(&nodes, &o, &CategoryTab::All);
    assert_eq!(all.len(), 4 + 5 + 5 + 3);
    assert!(matches!(all[0], DisplayItem::Workspace { .. }));
    assert!(matches!(all[4], DisplayItem::Tab { .. }));
    assert!(matches!(all[9], DisplayItem::Pane { .. }));
    assert!(matches!(all[16], DisplayItem::Agent { .. }));
}

#[test]
fn cache_key_is_zero_without_nodes_and_tracks_inputs() {
    let empty = StrMap::new();
    let empty_others = StrMap::new();
    let o = opts(&empty, &empty_others, None, None, None);
    assert_eq!(build_cache_key(&[], &o, &CategoryTab::Panes, "x"), 0);
    let nodes = sample_nodes();
    let a = build_cache_key(&nodes, &o, &CategoryTab::Panes, "x");
    let b = build_cache_key(&nodes, &o, &CategoryTab::Panes, "x");
    let c = build_cache_key(&nodes, &o, &CategoryTab::Panes, "xy");
    let d = build_cache_key(&nodes, &o, &CategoryTab::Tabs, "x");
    assert_eq!(a, b);
    assert_ne!(a, c);
    assert_ne!(a, d);
}

#[test]
fn empty_query_keeps_every_row_in_order() {
    let nodes = sample_nodes();
    let empty = StrMap::new();
    let empty_others = StrMap::new();
    let o = opts(&empty, &empty_others, None, None, None);
    let items = build_display_list(&nodes, &o, &CategoryTab::Panes);
    let found = search_display_items(&items, "");
    let a: Vec<String> = items.iter().map(|i| i.sort_key()).collect();
    let b: Vec<String> = found.iter().map(|i| i.sort_key()).collect();
    assert_eq!(a, b);
}

#[test]
fn search_drops_rows_that_do_not_match() {
    let nodes = sample_nodes();
    let empty = StrMap::new();
    let empty_others = StrMap::new();
    let o = opts(&empty, &empty_others, None, None, None);
    let items = build_display_list(&nodes, &o, &CategoryTab::Workspaces);
    let found = search_display_items(&items, "infra");
    assert_eq!(found.len(), 1);
    assert_eq!(found[0].sort_key(), "Infra-Deploy");
}

#[test]
fn rank_items_orders_by_keys_and_keeps_ties_stable() {
    let nodes = sample_nodes();
    let empty = StrMap::new();
    let empty_others = StrMap::new();
    let o = opts(&empty, &empty_others, None, None, None);
    let items = build_display_list(&nodes, &o, &CategoryTab::Agents);
    let keys = vec![Some((1, 0)), None, Some((5, 2))];
    let ranked = rank_items(&items, &keys);
    assert_eq!(ranked.len(), 2);
    assert_eq!(ranked[0].sort_key(), items[2].sort_key());
    assert_eq!(ranked[1].sort_key(), items[0].sort_key());
    let ties = vec![Some((3, 3)), Some((3, 3)), Some((3, 3))];
    let same = rank_items(&items, &ties);
    let a: Vec<String> = items.iter().map(|i| i.sort_key()).collect();
    let b: Vec<String> = same.iter().map(|i| i.sort_key()).collect();
    assert_eq!(a, b);
}

#[test]
fn sorted_positions_sorts_and_dedups() {
    assert_eq!(sorted_positions(&[5, 1, 3, 1, 5, 0]), vec![0, 1, 3, 5]);
    assert!(sorted_positions(&[]).is_empty());
}

#[test]
fn active_only_keeps_blocked_and_done_agents() {
    let nodes = sample_nodes();
    let empty = StrMap::new();
    let empty_others = StrMap::new();
    let o = opts(&empty, &empty_others, None, None, None);
    let agents = build_display_list(&nodes, &o, &CategoryTab::Agents);
    let kept = filter_active_only(&agents);
    let ids: Vec<String> = kept.iter().map(|i| i.sort_key()).collect();
    assert_eq!(ids, vec!["agent-2", "agent-3"]);
    let workspaces = build_display_list(&nodes, &o, &CategoryTab::Workspaces);
    let kept = filter_active_only(&workspaces);
    let names: Vec<String> = kept.iter().map(|i| i.sort_key()).collect();
    assert_eq!(names, vec!["Backend-Repo", "Frontend-UI"]);
}

#[test]
fn try_build_content_items_reports_off_boundary_search() {
    let nodes = sample_nodes();
    let empty = StrMap::new();
    let others: StrMap<PaneOthers> = StrMap::new();
    let mut contents: StrMap<String> = StrMap::new();
    contents.insert("pane-4".to_string(), "deploy ok\n".to_string());
    let found = try_build_content_items(&nodes, &contents, &others, &empty, None, None, "deploy").unwrap();
    assert_eq!(found.len(), build_content_items(&nodes, &contents, &others, &empty, None, None, "deploy").len());
    assert_eq!(found.len(), 1);
    contents.insert("pane-5".to_string(), "\u{212A}AB\n".to_string());
    assert!(try_build_content_items(&nodes, &contents, &others, &empty, None, None, "b").is_none());
    // An excluded pane is not searched.
    assert!(try_build_content_items(&nodes, &contents, &others, &empty, Some("pane-5"), None, "b").is_some());
}

#[test]
fn match_indices_stay_within_the_text() {
    let ascii = match_indices("Permission denied", "PERMISSION");
    assert_eq!(ascii, (0..10).collect::<Vec<usize>>());
    assert!(ascii.iter().all(|&i| i < "Permission denied".chars().count()));
    // Grapheme clusters that all start with an ASCII character make nucleo
    // match on the text's bytes: the hit is reported at its byte offset.
    let combining = "e\u{301}x";
    let hits = match_indices(combining, "x");
    assert_eq!(hits, vec![3]);
    assert!(hits.iter().all(|&i| i < combining.len()));
}
