use herdr_recent_navigator::tracker::{
    build_timestamp_maps, record_event, record_event_with_names, state_dir_or_default, MruEntry, MruKind,
    MRU_CAPACITY,
};

fn entry(kind: MruKind, id: &str, at: u64) -> MruEntry {
    MruEntry {
        kind,
        id: id.into(),
        workspace_id: "ws".into(),
        focused_at: at,
        name: None,
        workspace_name: None,
    }
}

#[test]
fn test_record_event_updates_timestamp() {
    let entries = record_event(Vec::new(), MruKind::Pane, "pane-1", "ws-1", 1000);
    assert_eq!(entries.len(), 1);
    let t1 = entries[0].focused_at;
    let entries = record_event(entries, MruKind::Pane, "pane-1", "ws-1", 1001);
    assert_eq!(entries.len(), 1, "Duplicate should not add new entry");
    assert!(entries[0].focused_at > t1, "Timestamp should be updated");
}

#[test]
fn test_record_event_truncates_at_300() {
    let mut entries = Vec::new();
    for i in 0..301u64 {
        entries = record_event(entries, MruKind::Pane, &format!("pane-{}", i), "ws-1", 1000 + i);
    }
    assert_eq!(entries.len(), 300, "Should truncate to 300 entries");
    assert_eq!(entries[0].id, "pane-300", "Most recent should be first");
    assert_eq!(MRU_CAPACITY, 300);
}

#[test]
fn test_record_event_preserves_name_on_update() {
    let entries = record_event_with_names(
        Vec::new(),
        MruKind::Pane,
        "pane-1",
        "ws-1",
        10,
        Some("MyPane".into()),
        None,
    );
    let entries = record_event_with_names(entries, MruKind::Pane, "pane-1", "ws-1", 20, None, None);
    assert_eq!(
        entries[0].name.as_deref(),
        Some("MyPane"),
        "Name should be preserved from previous entry"
    );
}

#[test]
fn record_event_moves_entity_to_front_and_keeps_others_in_order() {
    let entries = vec![
        entry(MruKind::Pane, "a", 30),
        entry(MruKind::Tab, "b", 20),
        entry(MruKind::Pane, "c", 10),
    ];
    let out = record_event(entries, MruKind::Pane, "c", "ws-2", 40);
    let ids: Vec<&str> = out.iter().map(|e| e.id.as_str()).collect();
    assert_eq!(ids, vec!["c", "a", "b"]);
    assert_eq!(out[0].workspace_id, "ws-2");
    assert_eq!(out[0].focused_at, 40);
    // Same id, other kind: a separate entity.
    let out = record_event(out, MruKind::Tab, "c", "ws-2", 50);
    assert_eq!(out.len(), 4);
}

#[test]
fn new_name_replaces_old_one() {
    let entries = record_event_with_names(Vec::new(), MruKind::Tab, "t", "w", 1, Some("Old".into()), Some("W1".into()));
    let entries = record_event_with_names(entries, MruKind::Tab, "t", "w", 2, Some("New".into()), None);
    assert_eq!(entries[0].name.as_deref(), Some("New"));
    assert_eq!(entries[0].workspace_name.as_deref(), Some("W1"));
}

#[test]
fn test_build_timestamp_maps_separates_kinds() {
    let entries = vec![
        entry(MruKind::Pane, "same-id", 100),
        entry(MruKind::Tab, "same-id", 200),
        entry(MruKind::Workspace, "same-id", 300),
    ];
    let (pane, tab, ws) = build_timestamp_maps(&entries);
    assert_eq!(pane.get("same-id"), Some(&100));
    assert_eq!(tab.get("same-id"), Some(&200));
    assert_eq!(ws.get("same-id"), Some(&300));
}

#[test]
fn test_build_timestamp_maps_keeps_most_recent() {
    let entries = vec![entry(MruKind::Pane, "pane-1", 999), entry(MruKind::Pane, "pane-1", 100)];
    let (pane, _, _) = build_timestamp_maps(&entries);
    assert_eq!(pane.get("pane-1"), Some(&999), "Should keep most recent (first seen in MRU order)");
}

#[test]
fn recorded_event_is_what_the_map_reads_back() {
    let entries = vec![entry(MruKind::Pane, "p", 5), entry(MruKind::Tab, "t", 4)];
    let out = record_event(entries, MruKind::Tab, "t", "ws", 77);
    let (pane, tab, ws) = build_timestamp_maps(&out);
    assert_eq!(tab.get("t"), Some(&77));
    assert_eq!(pane.get("p"), Some(&5));
    assert!(ws.is_empty());
}

#[test]
fn test_record_event_creates_file() {
    let entries: Vec<MruEntry> = Vec::new();
    assert!(entries.is_empty(), "History should be empty before recording");
    let entries = record_event(entries, MruKind::Pane, "pane-1", "ws-1", 1000);
    assert_eq!(entries.len(), 1, "History should hold the entry after recording");
    assert_eq!(entries[0].id, "pane-1");
    assert_eq!(entries[0].kind, MruKind::Pane);
}

#[test]
fn state_dir_falls_back_when_unset() {
    assert_eq!(state_dir_or_default(None), "/tmp/herdr-recent-navigator");
    assert_eq!(state_dir_or_default(Some("/var/lib/herdr/plugin".into())), "/var/lib/herdr/plugin");
    assert_eq!(state_dir_or_default(Some(String::new())), "");
}
