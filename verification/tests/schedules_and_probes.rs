use augur_workspace::extension_actions::{
    finish_uninstall, register_discovered, uninstall_allowed, KnownPackage, StatusText,
};
use augur_workspace::extension_events::{scheduled_triggers, EventTrigger, ExtensionRoute, ScheduleKind, ScheduleRecord};
use augur_workspace::extensions_panel::ExtensionSettings;
use augur_workspace::keyed::KeyedMap;
use augur_workspace::keymap::{combo_display, combo_parts, keymap_diff, BindingChange, ResolvedShortcut};
use augur_workspace::preferences::{plain_path, probe_row, AgentProbes};

fn trigger(id: &str, event_type: &str, subscribed: bool) -> EventTrigger {
    EventTrigger { id: id.into(), event_type: event_type.into(), debounce_ms: 0, subscribed }
}

fn status_parts(status: &StatusText) -> (String, Vec<(String, String)>) {
    match status {
        StatusText::Message { key, args } => (key.clone(), args.clone()),
        StatusText::Raw(text) => (format!("raw:{text}"), Vec::new()),
    }
}

#[test]
fn only_subscribed_schedules_of_trusted_extensions_are_polled() {
    let triggers = vec![
        trigger("daily", "schedule.daily", true),
        trigger("status", "repository.status_changed", true),
        trigger("every", "schedule.interval", true),
        trigger("off", "schedule.interval", false),
    ];
    let route = ExtensionRoute { extension_id: "sync".into(), trusted: true, triggers };
    assert_eq!(scheduled_triggers(&route), vec![(0, ScheduleKind::Daily), (2, ScheduleKind::Interval)]);
    let untrusted = ExtensionRoute { trusted: false, ..route };
    assert!(scheduled_triggers(&untrusted).is_empty());
}

#[test]
fn a_daily_occurrence_runs_once() {
    let mut record = ScheduleRecord { last_event_occurrences: KeyedMap::new(), last_scheduled_date: None };
    assert!(record.is_new_occurrence("daily", "2024-05-01"));
    record.record("daily".into(), "2024-05-01".into());
    assert!(!record.is_new_occurrence("daily", "2024-05-01"));
    assert!(record.is_new_occurrence("daily", "2024-05-02"));
    assert!(record.is_new_occurrence("other", "2024-05-01"));
    assert_eq!(record.last_scheduled_date.as_deref(), Some("2024-05-01"));
}

#[test]
fn discovered_extensions_are_trusted_only_when_bundled() {
    let mut configured: KeyedMap<String, ExtensionSettings> = KeyedMap::new();
    assert!(register_discovered(&mut configured, "sync-open-tabs", true));
    assert!(register_discovered(&mut configured, "local", false));
    assert!(configured.get(&"sync-open-tabs".to_string()).unwrap().trusted);
    assert!(!configured.get(&"local".to_string()).unwrap().trusted);
    configured.get(&"local".to_string()).unwrap();
    // A known extension keeps what the user chose.
    let mut trusted_local = configured.take(&"local".to_string()).unwrap();
    trusted_local.trusted = true;
    configured.insert("local".to_string(), trusted_local);
    assert!(!register_discovered(&mut configured, "local", false));
    assert!(configured.get(&"local".to_string()).unwrap().trusted);
}

#[test]
fn probe_rows_say_why_a_profile_cannot_be_tested() {
    let (label, can_test) = probe_row(false, false, None);
    assert_eq!(status_parts(&label).0, "agent-profile-invalid");
    assert!(!can_test);
    let (label, can_test) = probe_row(true, true, None);
    assert_eq!(status_parts(&label).0, "agent-executable-not-found");
    assert!(!can_test);
    let version = Ok("codex 1.2".to_string());
    let (label, can_test) = probe_row(true, false, Some(&version));
    assert_eq!(status_parts(&label).0, "raw:codex 1.2");
    assert!(can_test);
    let failure = Err("not found".to_string());
    let (label, can_test) = probe_row(true, false, Some(&failure));
    assert_eq!(status_parts(&label), ("agent-probe-unavailable".into(), vec![("error".into(), "not found".into())]));
    assert!(!can_test);
    let (label, can_test) = probe_row(true, false, None);
    assert_eq!(status_parts(&label).0, "agent-probe-checking");
    assert!(can_test);

    let mut probes = AgentProbes::new();
    let round = probes.start(&vec!["codex".to_string(), "aider".to_string()]);
    assert!(probes.answer("codex").is_none());
    probes.finish(round, vec![("codex".to_string(), Ok("1.0".to_string())), ("aider".to_string(), Err("x".to_string()))]);
    assert_eq!(probes.answer("codex"), Some(&Ok("1.0".to_string())));
    assert_eq!(probes.answer("aider"), Some(&Err("x".to_string())));
    assert_eq!(probes.answer("gemini"), None);
}

#[test]
fn verbatim_drive_paths_lose_their_prefix() {
    assert_eq!(plain_path(r"\\?\C:\work\repo"), r"C:\work\repo");
    assert_eq!(plain_path(r"\\?\UNC\server\share"), r"\\?\UNC\server\share");
    assert_eq!(plain_path("/home/u/repo"), "/home/u/repo");
    assert_eq!(plain_path(r"\\?\"), r"\\?\");
}

#[test]
fn displayed_key_lists_read_back() {
    let keys = vec!["cmd-q".to_string(), "alt-f4".to_string(), "ctrl-shift-p".to_string()];
    let text = combo_display(&keys);
    assert_eq!(text, "cmd-q, alt-f4, ctrl-shift-p");
    assert_eq!(combo_parts(&text), keys);
    assert!(combo_parts(&combo_display(&Vec::new())).is_empty());
}

#[test]
fn suppressions_come_before_bindings() {
    let previous = vec![ResolvedShortcut { command: "app.quit".into(), keys: vec!["cmd-q".into(), "cmd-w".into()] }];
    let next = vec![
        ResolvedShortcut { command: "app.quit".into(), keys: vec!["cmd-x".into()] },
        ResolvedShortcut { command: "app.close".into(), keys: vec!["cmd-w".into()] },
    ];
    let changes = keymap_diff(&previous, &next);
    let first_bind = changes.iter().position(|c| matches!(c, BindingChange::Bind { .. })).unwrap();
    assert!(changes[..first_bind].iter().all(|c| matches!(c, BindingChange::Suppress { .. })));
    assert!(changes[first_bind..].iter().all(|c| matches!(c, BindingChange::Bind { .. })));
    for combo in ["cmd-q", "cmd-w"] {
        assert!(changes.iter().any(|c| matches!(c, BindingChange::Suppress { combo: x } if x == combo)));
    }
    for (combo, command) in [("cmd-x", "app.quit"), ("cmd-w", "app.close")] {
        assert!(changes
            .iter()
            .any(|c| matches!(c, BindingChange::Bind { combo: x, command: y } if x == combo && y == command)));
    }
}

#[test]
fn bundled_extensions_cannot_be_uninstalled() {
    let packages = vec![
        KnownPackage { id: "sync-open-tabs".into(), bundled: true },
        KnownPackage { id: "local".into(), bundled: false },
    ];
    assert!(!uninstall_allowed(&packages, "sync-open-tabs"));
    assert!(uninstall_allowed(&packages, "local"));
    assert!(uninstall_allowed(&packages, "unknown"));

    let mut configured: KeyedMap<String, ExtensionSettings> = KeyedMap::new();
    register_discovered(&mut configured, "local", false);
    let failed = finish_uninstall(&mut configured, "local", Err("permission denied".into()));
    assert_eq!(status_parts(&failed).0, "raw:permission denied");
    assert!(configured.contains(&"local".to_string()));
    let done = finish_uninstall(&mut configured, "local", Ok(()));
    assert_eq!(status_parts(&done).0, "extensions-status-uninstalled");
    assert!(!configured.contains(&"local".to_string()));
}
