use herdr_recent_navigator::models::AgentStatus;
use herdr_recent_navigator::theme::{agent_icon, is_light_theme, spinner_frame, state_dot, MarkColor, Palette};

#[test]
fn light_theme_names() {
    assert!(is_light_theme("catppuccin-latte"));
    assert!(is_light_theme("tokyonight-day"));
    assert!(is_light_theme("rose-pine-dawn"));
    assert!(is_light_theme("kanagawa-lotus"));
    assert!(is_light_theme("github-light"));
    assert!(!is_light_theme("tokyonight-storm"));
    assert!(!is_light_theme("latte"));
}

#[test]
fn palette_follows_theme() {
    assert_eq!(Palette::for_theme(Some("x-light")).text, (55, 96, 191));
    assert_eq!(Palette::for_theme(Some("tokyonight")).text, (192, 202, 245));
    assert_eq!(Palette::for_theme(None).accent, (122, 162, 247));
}

#[test]
fn spinner_advances_every_three_ticks() {
    assert_eq!(spinner_frame(0), "⠋");
    assert_eq!(spinner_frame(2), "⠋");
    assert_eq!(spinner_frame(3), "⠙");
    assert_eq!(spinner_frame(29), "⠏");
    assert_eq!(spinner_frame(30), "⠋");
}

#[test]
fn status_marks() {
    assert_eq!(state_dot(&AgentStatus::Blocked), ("●", MarkColor::Red));
    assert_eq!(state_dot(&AgentStatus::Idle), ("○", MarkColor::Green));
    assert_eq!(agent_icon(&AgentStatus::Working, 3), ("⠙", MarkColor::Yellow));
    assert_eq!(agent_icon(&AgentStatus::Idle, 0), ("✓", MarkColor::Green));
    assert_eq!(MarkColor::Teal.in_palette(&Palette::dark()), (125, 207, 255));
}
