use herdr_recent_navigator::cli::{Cli, Command, Launch};
use herdr_recent_navigator::models::CategoryTab;

fn cli(command: Option<Command>, view: Option<&str>, pane_open: bool) -> Cli {
    Cli {
        command,
        view: view.map(String::from),
        pane_open,
        mock: false,
        log_file: None,
    }
}

#[test]
fn test_launch_track_wins() {
    let c = cli(Some(Command::Track), Some("tabs"), true);
    assert!(matches!(c.launch(), Launch::Track));
}

#[test]
fn test_launch_pane_open_remembers_view() {
    let c = cli(None, Some("agents"), true);
    assert!(matches!(c.launch(), Launch::PaneOpen { remember: Some(CategoryTab::Agents) }));
}

#[test]
fn test_launch_pane_open_without_view() {
    let c = cli(None, None, true);
    assert!(matches!(c.launch(), Launch::PaneOpen { remember: None }));
}

#[test]
fn test_launch_pane_open_unknown_view_remembers_nothing() {
    let c = cli(None, Some("bogus"), true);
    assert!(matches!(c.launch(), Launch::PaneOpen { remember: None }));
}

#[test]
fn test_launch_navigate() {
    let c = cli(None, Some("panes"), false);
    assert!(matches!(c.launch(), Launch::Navigate));
}

#[test]
fn test_start_category_view_over_last() {
    let c = cli(None, Some("panes"), false);
    assert_eq!(c.start_category(Some(CategoryTab::Tabs), CategoryTab::Workspaces), CategoryTab::Panes);
}

#[test]
fn test_start_category_last_without_view() {
    let c = cli(None, None, false);
    assert_eq!(c.start_category(Some(CategoryTab::Tabs), CategoryTab::Workspaces), CategoryTab::Tabs);
}

#[test]
fn test_start_category_default() {
    let c = cli(None, Some("nope"), false);
    assert_eq!(c.start_category(None, CategoryTab::Workspaces), CategoryTab::Workspaces);
}
