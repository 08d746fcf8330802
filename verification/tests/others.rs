use herdr_recent_navigator::others::{
    command_is_editor, command_is_shell, content_excerpt, is_shell_prompt_title, parse_editor_target,
    parse_ssh_target, strip_ansi, try_content_excerpt, EXCERPT_POST, EXCERPT_PRE,
};

// ── strip_ansi ──

#[test]
fn strips_sgr_and_csi() {
    assert_eq!(strip_ansi("\x1b[38;5;196mred\x1b[0m plain"), "red plain");
    assert_eq!(strip_ansi("\x1b[1mB\x1b[0m"), "B");
}

#[test]
fn strips_osc_title_sequences() {
    assert_eq!(strip_ansi("\x1b]0;tmux title\x07text"), "text");
    assert_eq!(strip_ansi("\x1b]633;prop=;row=1\x1b\\row"), "row");
}

#[test]
fn strips_charset_select() {
    assert_eq!(strip_ansi("\x1b(Babc"), "abc");
}

#[test]
fn leaves_plain_text_unchanged() {
    assert_eq!(strip_ansi("plain text with no escapes"), "plain text with no escapes");
}

#[test]
fn strip_ansi_twice_is_stripping_once() {
    let once = strip_ansi("\x1b[31m\x1b]0;t\x07x\x1b(By");
    assert_eq!(once, "xy");
    assert_eq!(strip_ansi(&once), once);
}

// ── content_excerpt ──

#[test]
fn finds_case_insensitive_match() {
    let content = "line one\nDeployService started on port 8081\nline three";
    let ex = content_excerpt(content, "deployservice").unwrap();
    assert!(ex.eq_ignore_ascii_case("deployservice started on port 8081"));
}

#[test]
fn crops_long_lines_anchoring_match_left() {
    let mut line = String::new();
    line.extend(std::iter::repeat_n('a', 200));
    line.insert_str(140, "NEEDLE"); // total 206 chars
    let content = line;
    let ex = content_excerpt(&content, "NEEDLE").unwrap();
    assert!(ex.contains("NEEDLE"));
    assert!(ex.starts_with('…'), "crop left marker: {ex}");
    let prefix = ex[..ex.find("NEEDLE").unwrap()].chars().count();
    let leading_marker = usize::from(ex.starts_with('…'));
    assert!(prefix - leading_marker <= EXCERPT_PRE, "match buried at char {prefix}: {ex}");
    assert!(ex.chars().count() <= EXCERPT_PRE + 6 + EXCERPT_POST + 2);
}

#[test]
fn match_anchored_left_on_wrapped_terminal_line() {
    let content = "│\u{10f105}                               32/32 ││  2    plans 目录里的一行 md, 词尾是 thers 时摘录需左对齐到命中处";
    let ex = content_excerpt(content, "thers").unwrap();
    let prefix = ex[..ex.find("thers").unwrap()].chars().count();
    let leading_marker = usize::from(ex.starts_with('…'));
    assert!(prefix - leading_marker <= EXCERPT_PRE, "match buried at char {prefix}: {ex}");
}

#[test]
fn returns_single_line() {
    let content = "head\nmiddle tail\nother";
    let ex = content_excerpt(content, "tail").unwrap();
    assert_eq!(ex, "middle tail");
}

#[test]
fn sanitizes_control_chars() {
    let content = "a\tb\x00c wrap";
    let ex = content_excerpt(content, "wrap").unwrap();
    assert_eq!(ex, "a b c wrap");
}

#[test]
fn returns_none_when_absent() {
    assert_eq!(content_excerpt("abc def", "zzz"), None);
    assert_eq!(content_excerpt("abc", "  "), None);
}

#[test]
fn excerpt_crops_right_with_marker() {
    let mut content = String::from("start ");
    content.extend(std::iter::repeat_n('b', 200));
    let ex = content_excerpt(&content, "start").unwrap();
    assert!(ex.starts_with("start "));
    assert!(ex.ends_with('…'));
    assert_eq!(ex.chars().count(), 5 + EXCERPT_POST + 1);
}

#[test]
fn lowercase_fallback_uses_whole_string_rules() {
    // A final capital sigma lowercases to "ς", so "σ" does not match it.
    assert_eq!(content_excerpt("ΑΣ", "σ"), None);
    assert_eq!(content_excerpt("ΑΣ", "ας"), Some("ΑΣ".to_string()));
}

#[test]
fn search_off_character_boundary_is_reported() {
    // The Kelvin sign (3 bytes) lowercases to a 1-byte "k": the hit's byte
    // offset in the lowercased text falls inside it.
    assert_eq!(try_content_excerpt("\u{212A}AB", "b"), None);
    // A 2-byte control character becomes a 1-byte space: the hit's byte
    // offset falls inside the sanitized "é".
    assert_eq!(try_content_excerpt("\u{85}a\u{e9}", "\u{e9}"), None);
    assert_eq!(try_content_excerpt("abc", "B"), Some(Some("abc".to_string())));
    assert_eq!(try_content_excerpt("abc", "z"), Some(None));
    assert_eq!(try_content_excerpt("abc", " "), Some(None));
}

#[test]
fn sanitized_control_keeps_the_byte_offset() {
    assert_eq!(content_excerpt("\u{85}ab needle", "needle"), Some(" ab needle".to_string()));
}

// ── parse_ssh_target ──

#[test]
fn parses_bare_ssh_host() {
    assert_eq!(parse_ssh_target("ssh deploy.example.com"), Some("deploy.example.com".into()));
}

#[test]
fn parses_user_at_host() {
    assert_eq!(parse_ssh_target("ssh lex@192.168.1.50"), Some("lex@192.168.1.50".into()));
}

#[test]
fn parses_custom_port_separate_arg() {
    assert_eq!(
        parse_ssh_target("ssh -p 2200 lex@192.168.1.50"),
        Some("lex@192.168.1.50:2200".into())
    );
}

#[test]
fn parses_custom_port_combined_arg() {
    assert_eq!(
        parse_ssh_target("ssh -p2200 lex@192.168.1.50"),
        Some("lex@192.168.1.50:2200".into())
    );
}

#[test]
fn skips_options_with_separate_values() {
    assert_eq!(
        parse_ssh_target("ssh -o ServerAliveInterval=30 -l root 10.0.0.7"),
        Some("root@10.0.0.7".into())
    );
}

#[test]
fn skips_combined_option_value() {
    assert_eq!(parse_ssh_target("ssh -oServerAliveInterval=30 10.0.0.7"), Some("10.0.0.7".into()));
}

#[test]
fn jump_host_is_not_the_destination() {
    assert_eq!(
        parse_ssh_target("ssh -J bastion@gateway.example.com prod@10.9.9.9"),
        Some("prod@10.9.9.9".into())
    );
}

#[test]
fn handles_double_dash_terminator() {
    assert_eq!(parse_ssh_target("ssh -- prod@10.9.9.9 uptime"), Some("prod@10.9.9.9".into()));
}

#[test]
fn mosh_is_ssh_family() {
    assert_eq!(parse_ssh_target("mosh user@laptop.local"), Some("user@laptop.local".into()));
}

#[test]
fn returns_none_for_non_ssh() {
    assert_eq!(parse_ssh_target("docker compose up -d"), None);
    assert_eq!(parse_ssh_target("nvim src/main.rs"), None);
}

#[test]
fn returns_none_for_bare_binary() {
    assert_eq!(parse_ssh_target("ssh"), None);
}

// ── command classification ──

#[test]
fn login_shell_is_shell() {
    assert!(command_is_shell("-zsh"));
    assert!(command_is_shell("zsh"));
    assert!(command_is_shell("/bin/bash"));
}

#[test]
fn non_shell_is_not_shell() {
    assert!(!command_is_shell("nvim src/main.rs"));
    assert!(!command_is_shell("psql -U poste -h 127.0.0.1"));
    assert!(!command_is_shell("ssh prod@10.9.9.9"));
    assert!(!command_is_shell(""));
}

#[test]
fn editor_is_editor() {
    assert!(command_is_editor("nvim src/main.rs"));
    assert!(command_is_editor("/usr/local/bin/nvim plans/x.md"));
    assert!(command_is_editor("code --wait src/app.rs"));
    assert!(command_is_editor("hx"));
    assert!(command_is_editor("emacs -nw README.md"));
}

#[test]
fn shell_prompt_title_shapes() {
    assert!(is_shell_prompt_title("you@work-host: ~/repo"));
    assert!(is_shell_prompt_title("deploy@10.0.0.5:/opt/app"));
    assert!(is_shell_prompt_title("ali@203.0.113.7: ~"));
    assert!(is_shell_prompt_title("root@server:/var/log"));
    assert!(is_shell_prompt_title("user@192.168.4.1:~/web"));
}

#[test]
fn non_shell_prompt_title_shapes() {
    assert!(!is_shell_prompt_title("/usr/local/bin/nvim"));
    assert!(!is_shell_prompt_title("OC | 项目手机端适配"));
    assert!(!is_shell_prompt_title("caffeinate -i"));
    assert!(!is_shell_prompt_title("user@host"));
    assert!(!is_shell_prompt_title(""));
}

#[test]
fn non_editor_is_not_editor() {
    assert!(!command_is_editor("-zsh"));
    assert!(!command_is_editor("git log --oneline"));
    assert!(!command_is_editor("htop"));
    assert!(!command_is_editor("ssh prod@10.9.9.9"));
    assert!(!command_is_editor(""));
    assert!(!command_is_editor("docker compose up -d"));
}

// ── parse_editor_target ──

#[test]
fn editor_target_with_line() {
    assert_eq!(
        parse_editor_target("nvim +328 src/main.rs"),
        Some(("src/main.rs".to_string(), Some(328)))
    );
}

#[test]
fn editor_target_without_line_skips_options() {
    assert_eq!(
        parse_editor_target("code --wait src/app.rs"),
        Some(("src/app.rs".to_string(), None))
    );
}

#[test]
fn editor_without_file_has_no_target() {
    assert_eq!(parse_editor_target("hx"), None);
}

#[test]
fn trailing_words_keep_the_ssh_target() {
    let base = "ssh -p 2222 deploy@web-01";
    let target = parse_ssh_target(base);
    assert_eq!(target.as_deref(), Some("deploy@web-01:2222"));
    assert_eq!(parse_ssh_target(&format!("{base} {}", "tail -f /var/log/syslog")), target);
    assert_eq!(parse_ssh_target(&format!("{base} {}", "-l root other-host")), target);
}
