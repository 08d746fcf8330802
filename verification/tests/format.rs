use herdr_recent_navigator::format::{
    column_header, highlight_segments, highlight_text, search_count, min_terminal_size, scroll_offset, tab_label, truncate_front,
    truncate_to,
};
use herdr_recent_navigator::models::CategoryTab;
use unicode_width::UnicodeWidthStr;

// ── truncate_to ──

#[test]
fn test_truncate_to_short_string() {
    assert_eq!(truncate_to("hello", 10), "hello");
}

#[test]
fn test_truncate_to_exact_fit() {
    assert_eq!(truncate_to("hello", 5), "hello");
}

#[test]
fn test_truncate_to_truncates_with_ellipsis() {
    let result = truncate_to("hello world", 5);
    assert_eq!(result.chars().count(), 5, "truncated 'hello world' at 5 chars");
    assert!(result.ends_with('…'));
}

#[test]
fn test_truncate_to_respects_unicode_width() {
    let result = truncate_to("你好世界", 4);
    assert_eq!(result.chars().count(), 2, "Should keep 1 CJK char + ellipsis");
    assert!(result.ends_with('…'));
}

#[test]
fn test_truncate_to_empty_string() {
    assert_eq!(truncate_to("", 5), "");
}

#[test]
fn test_truncate_to_zero_max() {
    assert_eq!(truncate_to("hello", 0), "");
}

#[test]
fn truncate_to_keeps_exact_prefix() {
    assert_eq!(truncate_to("hello world", 5), "hell…");
    assert_eq!(truncate_to("abc", 1), "…");
}

// ── truncate_front ──

#[test]
fn test_truncate_front_short_string() {
    assert_eq!(truncate_front("a/b/c.rs", 10), "a/b/c.rs");
}

#[test]
fn test_truncate_front_keeps_tail() {
    let result = truncate_front("/very/deep/path/to/abc.mdx:328", 12);
    assert!(result.starts_with('…'), "front marker: {result}");
    assert!(result.ends_with("abc.mdx:328"), "tail kept: {result}");
    assert!(UnicodeWidthStr::width(result.as_str()) <= 12);
}

#[test]
fn test_truncate_front_respects_unicode_width() {
    let result = truncate_front("目录很长的路径/文件.md", 7);
    assert!(result.starts_with('…'));
    assert!(UnicodeWidthStr::width(result.as_str()) <= 7);
    assert!("目录很长的路径/文件.md".ends_with(&result[3..]));
}

#[test]
fn test_truncate_front_tiny_widths() {
    assert_eq!(truncate_front("abc.rs", 1), "…");
    assert_eq!(truncate_front("abc.rs", 0), "");
}

#[test]
fn truncate_front_exact_tail() {
    assert_eq!(truncate_front("abcdef", 4), "…def");
}

// ── highlight_text ──

#[test]
fn test_highlight_text_no_query() {
    let result = highlight_text("hello", "");
    assert_eq!(result.len(), 1, "No query should return single span");
    assert_eq!(result[0].0, "hello");
    assert!(!result[0].1);
}

#[test]
fn test_highlight_text_empty_text() {
    let result = highlight_text("", "test");
    assert_eq!(result.len(), 1);
    assert!(result[0].0.is_empty());
}

#[test]
fn test_highlight_text_matches_highlighted() {
    let result = highlight_text("hello", "he");
    assert_eq!(result.len(), 2, "Contiguous same-style chars merged into 2 spans");
    assert_eq!(result[0].0, "he");
    assert!(result[0].1, "'he' should be highlighted");
    assert_eq!(result[1].0, "llo");
    assert!(!result[1].1, "'llo' should have base style");
}

#[test]
fn highlight_segments_alternate_runs() {
    let segs = highlight_segments("abcdef", &[1, 2, 5]);
    let expect: Vec<(String, bool)> = vec![
        ("a".into(), false),
        ("bc".into(), true),
        ("de".into(), false),
        ("f".into(), true),
    ];
    assert_eq!(segs, expect);
    let first = highlight_segments("xy", &[0]);
    assert_eq!(first, vec![("x".to_string(), true), ("y".to_string(), false)]);
}

// ── tab_label ──

#[test]
fn test_tab_label_workspaces() {
    assert_eq!(tab_label(&CategoryTab::Workspaces, false), "Workspaces");
    assert_eq!(tab_label(&CategoryTab::Workspaces, true), "WS");
}

#[test]
fn test_tab_label_tabs() {
    assert_eq!(tab_label(&CategoryTab::Tabs, false), "Tabs");
    assert_eq!(tab_label(&CategoryTab::Tabs, true), "Tabs");
}

#[test]
fn test_tab_label_agents() {
    assert_eq!(tab_label(&CategoryTab::Agents, false), "Agents");
    assert_eq!(tab_label(&CategoryTab::Agents, true), "Agents");
}

#[test]
fn test_tab_label_all() {
    assert_eq!(tab_label(&CategoryTab::All, false), "All");
    assert_eq!(tab_label(&CategoryTab::All, true), "All");
}

// ── min_terminal_size ──

#[test]
fn test_min_terminal_size_too_small() {
    assert!(!min_terminal_size(19, 5));
}

#[test]
fn test_min_terminal_size_ok() {
    assert!(min_terminal_size(20, 4));
}

#[test]
fn test_min_terminal_size_exact_boundary() {
    assert!(min_terminal_size(20, 4));
}

#[test]
fn min_terminal_size_needs_four_rows() {
    assert!(!min_terminal_size(80, 3));
}

// ── scroll_offset ──

#[test]
fn scroll_keeps_selection_near_middle() {
    assert_eq!(scroll_offset(5, 10, 3), 0);
    assert_eq!(scroll_offset(100, 10, 50), 45);
    assert_eq!(scroll_offset(100, 10, 2), 0);
    assert_eq!(scroll_offset(100, 10, 99), 90);
    assert_eq!(scroll_offset(100, 0, 7), 0);
}

#[test]
fn column_header_per_category() {
    assert_eq!(column_header(&CategoryTab::Panes), (vec!["Pane", "Tab", "Workspace", "Agent"], 1));
    assert_eq!(column_header(&CategoryTab::Tabs), (vec!["Tab", "Workspace", "Agent"], 1));
    assert_eq!(column_header(&CategoryTab::Agents), (vec!["Agent", "Tab", "Workspace"], 2));
    assert_eq!(column_header(&CategoryTab::Others), (vec!["Type", "Detail", "Context", "Pane"], 1));
    assert_eq!(column_header(&CategoryTab::Workspaces), (vec!["Workspace", "Agent"], 1));
    assert_eq!(column_header(&CategoryTab::All), (vec!["Workspace", "Agent"], 1));
}

#[test]
fn search_count_shows_total_or_ratio() {
    assert_eq!(search_count("", 3, 42), "42");
    assert_eq!(search_count("ab", 3, 42), "3/42");
    assert_eq!(search_count("x", 0, 0), "0/0");
    assert_eq!(search_count("", 0, 1007), "1007");
}
