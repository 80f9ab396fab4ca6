use augur_workspace::extension_actions::{
    apply_draft, apply_subscription, apply_trust, cancel_status, confirm_install, default_settings, event_status,
    install_step, install_step_status, installed_status, run_now_refusal, run_submitted_status, setting_edit_status,
    store_draft, subscription_status, ExtensionEvent, InstallStep, StatusText, SubscriptionOutcome,
};
use augur_workspace::extension_events::{
    index_snapshots, interval_elapsed, repository_state_changed, EventTrigger, ExtensionEventPayload, ExtensionRoute,
    PendingEvents, RepositoryObserver, RepositorySnapshot,
};
use augur_workspace::extensions_panel::{ExtensionRow, ExtensionSettings, ExtensionsPanel, ExtensionsPanelEvent, SettingValue};
use augur_workspace::keyed::KeyedMap;

fn snap(tab_id: u64, branch: &str, dirty: bool) -> RepositorySnapshot {
    RepositorySnapshot {
        tab_id,
        path: format!("/repo/{tab_id}"),
        branch: Some(branch.to_string()),
        head: Some("abc".into()),
        upstream: None,
        dirty,
        conflicts: false,
        busy: false,
        ahead: 0,
        behind: 0,
        remotes: vec!["origin".into()],
    }
}

fn types(events: &[ExtensionEventPayload]) -> Vec<(u64, String)> {
    events
        .iter()
        .map(|e| (e.repository.as_ref().unwrap().tab_id, e.event_type.clone()))
        .collect()
}

#[test]
fn state_changes_are_detected_field_by_field() {
    assert!(!repository_state_changed(&snap(1, "main", false), &snap(1, "main", false)));
    assert!(repository_state_changed(&snap(1, "main", false), &snap(1, "main", true)));
    assert!(repository_state_changed(&snap(1, "main", false), &snap(1, "dev", false)));
    let mut other_path = snap(1, "main", false);
    other_path.path = "/elsewhere".into();
    assert!(!repository_state_changed(&snap(1, "main", false), &other_path));
}

#[test]
fn samples_are_indexed_by_tab_with_the_last_sample_winning() {
    let indexed = index_snapshots(&vec![snap(3, "a", false), snap(1, "b", false), snap(3, "c", false)]);
    assert_eq!(indexed.iter().map(|s| s.tab_id).collect::<Vec<_>>(), vec![1, 3]);
    assert_eq!(indexed[1].branch.as_deref(), Some("c"));
}

#[test]
fn repository_events_follow_opens_changes_and_closes() {
    let mut observer = RepositoryObserver::new();
    let opened = observer.sync(&vec![snap(2, "main", false), snap(1, "main", false)], 100, 0);
    assert_eq!(
        types(&opened),
        vec![(1, "workspace.repository_opened".to_string()), (2, "workspace.repository_opened".to_string())]
    );
    assert!(observer.sync(&vec![snap(1, "main", false), snap(2, "main", false)], 200, 10).is_empty());
    observer.record_origin(1, "sync".into(), 7, 20);
    let changed = observer.sync(&vec![snap(1, "dev", false)], 300, 30);
    assert_eq!(
        types(&changed),
        vec![
            (1, "repository.branch_changed".to_string()),
            (1, "repository.status_changed".to_string()),
            (2, "workspace.repository_closed".to_string()),
        ]
    );
    assert_eq!(changed[0].origin_extension_id.as_deref(), Some("sync"));
    assert_eq!(changed[0].origin_run_id, Some(7));
    assert_eq!(changed[0].occurred_at, 300);
    assert!(changed[2].current.is_none());
    let dirty = observer.sync(&vec![snap(1, "dev", true)], 400, 40);
    assert_eq!(types(&dirty), vec![(1, "repository.status_changed".to_string())]);
    assert_eq!(dirty[0].origin_extension_id, None);
}

#[test]
fn unconsumed_claims_expire() {
    let mut observer = RepositoryObserver::new();
    observer.sync(&vec![snap(1, "main", false)], 0, 0);
    observer.record_origin(1, "sync".into(), 1, 1_000);
    assert!(observer.sync(&vec![snap(1, "main", false)], 0, 31_000).is_empty());
    let changed = observer.sync(&vec![snap(1, "main", true)], 0, 32_000);
    assert_eq!(changed[0].origin_extension_id, None);
}

fn trigger(id: &str, event_type: &str, debounce_ms: u64, subscribed: bool) -> EventTrigger {
    EventTrigger { id: id.into(), event_type: event_type.into(), debounce_ms, subscribed }
}

#[test]
fn events_are_routed_debounced_and_deduplicated_per_tab() {
    let routes = vec![
        ExtensionRoute {
            extension_id: "sync".into(),
            trusted: true,
            triggers: vec![trigger("on-status", "repository.status_changed", 500, true)],
        },
        ExtensionRoute {
            extension_id: "untrusted".into(),
            trusted: false,
            triggers: vec![trigger("on-status", "repository.status_changed", 0, true)],
        },
        ExtensionRoute {
            extension_id: "unsubscribed".into(),
            trusted: true,
            triggers: vec![trigger("on-status", "repository.status_changed", 0, false)],
        },
    ];
    let mut observer = RepositoryObserver::new();
    observer.sync(&vec![snap(1, "main", false)], 0, 0);
    let events = observer.sync(&vec![snap(1, "main", true)], 10, 10);
    let mut pending = PendingEvents::new();
    pending.emit_repository_event(&routes, &events[0], 1_000);
    let events = observer.sync(&vec![snap(1, "main", false)], 20, 20);
    pending.emit_repository_event(&routes, &events[0], 1_200);
    assert_eq!(pending.batches().len(), 1);
    let batch = &pending.batches()[0];
    assert_eq!(batch.extension_id, "sync");
    assert_eq!(batch.due_at_ms, 1_700);
    assert_eq!(batch.events.len(), 1);
    assert_eq!(batch.events[0].trigger_id, "on-status");
    assert_eq!(batch.events[0].occurred_at, 20);
    assert!(pending.take_due_batches(1_699).is_empty());
    let due = pending.take_due_batches(1_700);
    assert_eq!(due.len(), 1);
    assert!(pending.batches().is_empty());
}

#[test]
fn an_extension_never_hears_of_its_own_change() {
    let routes = vec![ExtensionRoute {
        extension_id: "sync".into(),
        trusted: true,
        triggers: vec![trigger("on-status", "repository.status_changed", 0, true)],
    }];
    let mut observer = RepositoryObserver::new();
    observer.sync(&vec![snap(1, "main", false)], 0, 0);
    observer.record_origin(1, "sync".into(), 4, 5);
    let events = observer.sync(&vec![snap(1, "main", true)], 0, 6);
    let mut pending = PendingEvents::new();
    pending.emit_repository_event(&routes, &events[0], 10);
    assert!(pending.batches().is_empty());
}

#[test]
fn interval_schedules_fire_after_at_least_a_minute() {
    let minute: i128 = 60_000_000_000;
    assert!(!interval_elapsed(0, minute - 1, 1));
    assert!(interval_elapsed(0, minute, 1));
    assert!(interval_elapsed(0, minute, 0));
    assert!(!interval_elapsed(0, 5 * minute - 1, 5));
    assert!(interval_elapsed(0, 5 * minute, 5));
    assert!(!interval_elapsed(100, 50, -3));
    assert!(!interval_elapsed(i128::MAX - 10, i128::MAX, 1));
    assert!(interval_elapsed(i128::MIN, i128::MAX, 1));
}

fn row(id: &str, trusted: bool) -> ExtensionRow<u32> {
    ExtensionRow {
        id: id.into(),
        settings: ExtensionSettings { trusted, subscribed_triggers: KeyedMap::new(), values: KeyedMap::new() },
        history: Vec::new(),
    }
}

#[test]
fn trusting_takes_two_clicks_and_revoking_one() {
    let mut panel = ExtensionsPanel::new(vec![row("a", false), row("b", true)], 2);
    assert_eq!(panel.selected_extension().as_deref(), Some("a"));
    assert!(panel.handle_trust_click("a".into()).is_none());
    match panel.handle_trust_click("a".into()) {
        Some(ExtensionsPanelEvent::TrustedChanged { extension_id, trusted }) => {
            assert_eq!(extension_id, "a");
            assert!(trusted);
        }
        _ => panic!("expected a trust change"),
    }
    match panel.handle_trust_click("b".into()) {
        Some(ExtensionsPanelEvent::TrustedChanged { trusted, .. }) => assert!(!trusted),
        _ => panic!("expected a trust change"),
    }
}

#[test]
fn revoking_trust_drops_subscriptions_and_history_is_capped() {
    let mut panel = ExtensionsPanel::new(vec![row("a", true)], 2);
    panel.update_subscription("a", "on-status", true);
    assert!(panel.rows()[0].settings.subscribed_triggers.contains(&"on-status".to_string()));
    panel.update_trust("a", false);
    assert!(!panel.rows()[0].settings.subscribed_triggers.contains(&"on-status".to_string()));
    assert!(!panel.rows()[0].settings.trusted);
    for record in [1u32, 2, 3] {
        panel.append_history("a", record);
    }
    assert_eq!(panel.rows()[0].history, vec![2, 3]);
    panel.append_history("missing", 9);
    panel.update_setting("a", "interval", SettingValue::Integer(5));
    assert_eq!(panel.rows()[0].settings.values.get(&"interval".to_string()), Some(&SettingValue::Integer(5)));
}

#[test]
fn replacing_definitions_keeps_a_valid_selection() {
    let mut panel = ExtensionsPanel::new(vec![row("a", false), row("b", false)], 5);
    panel.select_extension("b".into());
    panel.select_extension("zzz".into());
    assert_eq!(panel.selected_extension().as_deref(), Some("b"));
    panel.set_status("b", "ok".into());
    panel.set_setting_error("b", "k", "bad".into());
    assert!(panel.clear_setting_error("b", "k"));
    assert!(!panel.clear_setting_error("b", "k"));
    panel.replace_definitions(vec![row("c", false)]);
    assert_eq!(panel.selected_extension().as_deref(), Some("c"));
    panel.replace_definitions(vec![row("b", false), row("c", false)]);
    assert_eq!(panel.selected_extension().as_deref(), Some("c"));
}

fn message_key(status: &StatusText) -> String {
    match status {
        StatusText::Message { key, .. } => key.clone(),
        StatusText::Raw(text) => format!("raw:{text}"),
    }
}

fn message_args(status: &StatusText) -> Vec<(String, String)> {
    match status {
        StatusText::Message { args, .. } => args.clone(),
        StatusText::Raw(_) => Vec::new(),
    }
}

#[test]
fn subscribing_needs_trust() {
    let mut settings = default_settings();
    assert_eq!(apply_subscription(&mut settings, "t", true), SubscriptionOutcome::NeedsTrust);
    assert!(!settings.subscribed_triggers.contains(&"t".to_string()));
    assert!(apply_trust(&mut settings, true) == false);
    assert_eq!(apply_subscription(&mut settings, "t", true), SubscriptionOutcome::Subscribed);
    assert!(settings.subscribed_triggers.contains(&"t".to_string()));
    assert!(apply_trust(&mut settings, false));
    assert!(!settings.subscribed_triggers.contains(&"t".to_string()));
    let status = subscription_status(SubscriptionOutcome::Subscribed, "On status");
    assert_eq!(message_key(&status), "extensions-status-subscribed");
    assert_eq!(message_args(&status), vec![("label".to_string(), "On status".to_string())]);
}

#[test]
fn runtime_reports_become_status_lines() {
    assert_eq!(message_key(&cancel_status(0)), "extensions-status-no-active-run");
    assert_eq!(message_args(&cancel_status(3)), vec![("count".to_string(), "3".to_string())]);
    assert_eq!(message_key(&run_now_refusal(false, true).unwrap()), "extensions-status-trust-run");
    assert_eq!(message_key(&run_now_refusal(true, false).unwrap()), "extensions-status-no-manual-handler");
    assert!(run_now_refusal(true, true).is_none());
    assert_eq!(message_args(&run_submitted_status(Ok(Some(42)))), vec![("run_id".to_string(), "42".to_string())]);
    assert_eq!(message_key(&run_submitted_status(Ok(None))), "extensions-status-already-running");
    assert_eq!(message_key(&run_submitted_status(Err("boom".into()))), "raw:boom");
    let finished = ExtensionEvent::RunFinished { extension_id: "a".into(), run_id: 12, error: Some("bad".into()) };
    assert_eq!(message_key(&event_status(&finished)), "extensions-status-run-failed");
    assert_eq!(
        message_args(&event_status(&finished)),
        vec![("run_id".to_string(), "12".to_string()), ("error".to_string(), "bad".to_string())]
    );
    assert_eq!(message_key(&setting_edit_status(false)), "extensions-status-invalid-setting");
    assert_eq!(message_key(&installed_status("a", "b")), "extensions-status-installed-different-id");
}

#[test]
fn installing_over_an_existing_copy_needs_confirmation() {
    assert_eq!(install_step(true, true), InstallStep::RefuseBundled);
    assert_eq!(install_step(false, true), InstallStep::ConfirmReplacement);
    assert_eq!(install_step(false, false), InstallStep::Install);
    assert!(install_step_status(InstallStep::Install).is_none());
    let mut pending = Some(("a".to_string(), 5u8));
    assert_eq!(confirm_install(&mut pending, "b"), None);
    assert!(pending.is_some());
    assert_eq!(confirm_install(&mut pending, "a"), Some(5));
    assert!(pending.is_none());
}

#[test]
fn drafts_are_saved_over_stored_values() {
    let mut drafts: KeyedMap<String, KeyedMap<String, SettingValue>> = KeyedMap::new();
    store_draft(&mut drafts, "a", "k", SettingValue::Integer(1));
    store_draft(&mut drafts, "a", "k", SettingValue::Integer(2));
    store_draft(&mut drafts, "a", "j", SettingValue::Boolean(true));
    let draft = drafts.get(&"a".to_string()).unwrap();
    let mut settings = default_settings();
    settings.values.insert("k".into(), SettingValue::Integer(0));
    settings.values.insert("other".into(), SettingValue::String("x".into()));
    apply_draft(&mut settings, draft);
    assert_eq!(settings.values.get(&"k".to_string()), Some(&SettingValue::Integer(2)));
    assert_eq!(settings.values.get(&"j".to_string()), Some(&SettingValue::Boolean(true)));
    assert_eq!(settings.values.get(&"other".to_string()), Some(&SettingValue::String("x".into())));
}
