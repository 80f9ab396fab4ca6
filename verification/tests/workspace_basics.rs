use augur_workspace::app_menu_router::RoutedAction;
use augur_workspace::focus_refresh::{
    focus_decision, record_focus_refresh, should_refresh_on_focus, FocusDecision, FOCUS_REFRESH_COOLDOWN_MS,
};
use augur_workspace::keymap::{
    action_for, assemble_combo, combo_display, combo_parts, combo_strokes, command_ids, keymap_diff, owner_map,
    parse_combo_list, resolved_display, resolved_keys, BindingChange, ComboPart, InvalidCombo, ResolvedShortcut,
    ShortcutAction, QUIT_COMMAND,
};
use augur_workspace::preferences::{
    executable_override_valid, normalize_agent_override, normalize_typography, repo_key, FontChoice, PendingOpen,
};

const NOW: u64 = 10_000_000;

#[test]
fn routed_action_labels_are_stable_for_diagnostics() {
    assert_eq!(RoutedAction::OpenRepository.label(), "open repository");
    assert_eq!(RoutedAction::OpenWslRepository.label(), "open WSL repository");
    assert_eq!(RoutedAction::NewTab.label(), "new tab");
    assert_eq!(RoutedAction::InstallCli.label(), "install CLI");
    assert_eq!(RoutedAction::RemoveCli.label(), "remove CLI");
}

#[test]
fn first_activation_refreshes_when_no_refresh_recorded() {
    assert!(should_refresh_on_focus(None, NOW, FOCUS_REFRESH_COOLDOWN_MS));
}

#[test]
fn activation_within_cooldown_is_skipped() {
    let last = NOW - 1999;
    assert!(!should_refresh_on_focus(Some(last), NOW, FOCUS_REFRESH_COOLDOWN_MS));
}

#[test]
fn activation_after_cooldown_refreshes() {
    let last = NOW - 2001;
    assert!(should_refresh_on_focus(Some(last), NOW, FOCUS_REFRESH_COOLDOWN_MS));
}

#[test]
fn activation_exactly_at_cooldown_refreshes() {
    let last = NOW - FOCUS_REFRESH_COOLDOWN_MS;
    assert!(should_refresh_on_focus(Some(last), NOW, FOCUS_REFRESH_COOLDOWN_MS));
}

#[test]
fn very_old_last_refresh_refreshes() {
    let last = NOW - 3600 * 1000;
    assert!(should_refresh_on_focus(Some(last), NOW, FOCUS_REFRESH_COOLDOWN_MS));
}

#[test]
fn focus_refresh_is_recorded_only_when_accepted() {
    assert_eq!(focus_decision(false, true, None, NOW, true), FocusDecision::Inactive);
    assert_eq!(focus_decision(true, false, None, NOW, true), FocusDecision::Disabled);
    assert_eq!(focus_decision(true, true, Some(NOW - 10), NOW, true), FocusDecision::CoolingDown);
    assert_eq!(focus_decision(true, true, None, NOW, false), FocusDecision::NoTab);
    assert_eq!(focus_decision(true, true, None, NOW, true), FocusDecision::Refresh);
    assert_eq!(record_focus_refresh(Some(5), FocusDecision::Refresh, true, NOW), Some(NOW));
    assert_eq!(record_focus_refresh(Some(5), FocusDecision::Refresh, false, NOW), Some(5));
    assert_eq!(record_focus_refresh(None, FocusDecision::NoTab, true, NOW), None);
}

fn shortcut(command: &str, keys: &[&str]) -> ResolvedShortcut {
    ResolvedShortcut { command: command.to_string(), keys: keys.iter().map(|k| k.to_string()).collect() }
}

fn lookup(map: &[(String, String)], combo: &str) -> Option<String> {
    map.iter().find(|(c, _)| c == combo).map(|(_, command)| command.clone())
}

#[test]
fn owner_map_first_command_wins_shared_combos() {
    let resolved = vec![shortcut("app.a", &["cmd-q"]), shortcut("app.b", &["cmd-q", "cmd-b"])];
    let map = owner_map(&resolved);
    assert_eq!(lookup(&map, "cmd-q").as_deref(), Some("app.a"));
    assert_eq!(lookup(&map, "cmd-b").as_deref(), Some("app.b"));
    assert_eq!(map.len(), 2);
}

#[test]
fn parses_comma_separated_list() {
    let parts = combo_parts(" cmd-q , alt-f4 ");
    assert_eq!(parts, vec!["cmd-q".to_string(), "alt-f4".to_string()]);
    let normalized: Vec<ComboPart> = parts
        .iter()
        .map(|p| ComboPart { text: p.clone(), normalized: Some(p.clone()) })
        .collect();
    assert_eq!(parse_combo_list(&normalized).unwrap(), vec!["cmd-q".to_string(), "alt-f4".to_string()]);
    assert_eq!(combo_parts(""), Vec::<String>::new());
    assert_eq!(parse_combo_list(&Vec::new()).unwrap(), Vec::<String>::new());
    let with_invalid = vec![
        ComboPart { text: "cmd-q".into(), normalized: Some("cmd-q".into()) },
        ComboPart { text: "c-m".into(), normalized: None },
    ];
    assert_eq!(parse_combo_list(&with_invalid).unwrap_err(), InvalidCombo("c-m".to_string()));
}

#[test]
fn repeated_combinations_are_listed_once() {
    let parts = vec![
        ComboPart { text: "Cmd-Q".into(), normalized: Some("cmd-q".into()) },
        ComboPart { text: "cmd-q".into(), normalized: Some("cmd-q".into()) },
        ComboPart { text: "alt-f4".into(), normalized: Some("alt-f4".into()) },
    ];
    assert_eq!(parse_combo_list(&parts).unwrap(), vec!["cmd-q".to_string(), "alt-f4".to_string()]);
}

#[test]
fn combinations_split_into_keystrokes_and_join_back() {
    assert_eq!(combo_strokes("ctrl-k  ctrl-s"), vec!["ctrl-k".to_string(), "ctrl-s".to_string()]);
    assert_eq!(combo_strokes("   "), Vec::<String>::new());
    assert_eq!(
        assemble_combo(&vec![Some("ctrl-k".to_string()), Some("ctrl-s".to_string())]).as_deref(),
        Some("ctrl-k ctrl-s")
    );
    assert_eq!(assemble_combo(&vec![Some("ctrl-k".to_string()), None]), None);
    assert_eq!(assemble_combo(&Vec::new()), None);
}

#[test]
fn known_commands_have_actions() {
    assert_eq!(command_ids(), vec![QUIT_COMMAND]);
    assert_eq!(action_for("app.quit"), Some(ShortcutAction::Quit));
    assert_eq!(action_for("app.other"), None);
}

#[test]
fn key_lists_display_with_commas() {
    assert_eq!(combo_display(&vec!["cmd-q".to_string(), "alt-f4".to_string()]), "cmd-q, alt-f4");
    assert_eq!(combo_display(&Vec::new()), "");
    let resolved = vec![shortcut("app.quit", &["cmd-q", "alt-f4"])];
    assert_eq!(resolved_keys(&resolved, "app.quit"), vec!["cmd-q".to_string(), "alt-f4".to_string()]);
    assert_eq!(resolved_keys(&resolved, "app.other"), Vec::<String>::new());
    assert_eq!(resolved_display(&resolved, "app.quit"), "cmd-q, alt-f4");
}

fn describe(changes: &[BindingChange]) -> Vec<String> {
    changes
        .iter()
        .map(|c| match c {
            BindingChange::Suppress { combo } => format!("suppress {combo}"),
            BindingChange::Bind { combo, command } => format!("bind {combo} {command}"),
        })
        .collect()
}

#[test]
fn remapping_suppresses_the_retired_key_and_binds_the_new_one() {
    let first = vec![shortcut("app.quit", &["ctrl-alt-home"])];
    let second = vec![shortcut("app.quit", &["ctrl-alt-end"])];
    let none = vec![shortcut("app.quit", &[])];
    assert_eq!(describe(&keymap_diff(&Vec::new(), &first)), vec!["bind ctrl-alt-home app.quit"]);
    assert_eq!(
        describe(&keymap_diff(&first, &second)),
        vec!["suppress ctrl-alt-home", "bind ctrl-alt-end app.quit"]
    );
    assert_eq!(describe(&keymap_diff(&second, &none)), vec!["suppress ctrl-alt-end"]);
    assert_eq!(describe(&keymap_diff(&none, &second)), vec!["bind ctrl-alt-end app.quit"]);
    assert!(keymap_diff(&second, &second).is_empty());
}

#[test]
fn unavailable_fonts_are_reset_to_system_defaults() {
    let mut fonts = FontChoice {
        ui_font_family: Some("Missing UI Font".into()),
        mono_font_family: Some("Missing Mono Font".into()),
    };
    normalize_typography(&mut fonts, &vec!["Inter".to_string()]);
    assert_eq!(fonts.ui_font_family, None);
    assert_eq!(fonts.mono_font_family, None);
}

#[test]
fn installed_fonts_are_kept() {
    let mut fonts = FontChoice { ui_font_family: Some("Inter".into()), mono_font_family: None };
    normalize_typography(&mut fonts, &vec!["Inter".to_string()]);
    assert_eq!(fonts.ui_font_family.as_deref(), Some("Inter"));
    assert_eq!(fonts.mono_font_family, None);
}

#[test]
fn repository_keys_fold_case_only_when_asked() {
    assert_eq!(repo_key("C:/Repos/Augur", true), "c:/repos/augur");
    assert_eq!(repo_key("/home/Me/Repo", false), "/home/Me/Repo");
    assert_eq!(repo_key("/Ä/B", true), "/Ä/b");
}

#[test]
fn agent_overrides_are_trimmed_and_blank_means_none() {
    assert_eq!(normalize_agent_override(Some("  model-x  ".into())).as_deref(), Some("model-x"));
    assert_eq!(normalize_agent_override(Some("   ".into())), None);
    assert_eq!(normalize_agent_override(None), None);
    assert!(executable_override_valid("/usr/bin/aider"));
    assert!(!executable_override_valid(""));
    assert!(!executable_override_valid("bad\npath"));
}

#[test]
fn pending_open_is_empty_without_paths_or_listener() {
    let empty: PendingOpen<u8> = PendingOpen { startup_paths: Vec::new(), instance_server: None };
    assert!(empty.is_empty());
    let with_path: PendingOpen<u8> = PendingOpen { startup_paths: vec!["/repo".into()], instance_server: None };
    assert!(!with_path.is_empty());
    let with_server: PendingOpen<u8> = PendingOpen { startup_paths: Vec::new(), instance_server: Some(1) };
    assert!(!with_server.is_empty());
}
