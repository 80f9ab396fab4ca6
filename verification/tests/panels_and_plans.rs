use augur_workspace::agent_extension::{
    prompt_session_key, prompt_with_challenge, prompt_working_directory, session_plan, RepositoryOperation,
    SessionOperation, SessionPlan,
};
use augur_workspace::agent_merge::AgentMergeMode;
use augur_workspace::agent_rebase::AgentRebaseMode;
use augur_workspace::agent_session::{
    commit_key, running_session_exists, AgentSessionKind, AgentSessionWindow, SessionEntry,
};
use augur_workspace::agent_tab_sessions::{context_summary, short_oid, ReviewSelection};
use augur_workspace::branch_dialog::{sidebar_action, validated_name_in, PendingBranchDialog, SidebarAction, SidebarEvent};
use augur_workspace::extension_actions::{
    active_run_status, capabilities_summary, default_settings, next_event_hint, notification_status, trigger_display, RunTrigger,
    StatusText,
};
use augur_workspace::extension_events::{IntervalTicks, PendingEvents};
use augur_workspace::extensions_panel::{edited_setting_value, setting_display, SettingValue};
use augur_workspace::preferences::{
    args_from_text, editor_fields, editor_profile, font_options, installed_font_families, AgentProbes,
    AgentProfiles, CustomAgentProfile, ProfileLaunch,
};
use augur_workspace::repo_tab_state::{
    commit_submit, update_summary, CommitAction, CommitStep, ConfirmationKind, DiscardFile, MergeConfirmation, MergeStep, MergeTracker, PendingConfirmation,
    TabConfirmation, TabState, TabSummary,
};
use augur_workspace::tabs::TabId;
use augur_workspace::text::{bool_string, i64_string, parse_i64_exec, str_lt};

fn strings(v: &[&str]) -> Vec<String> {
    v.iter().map(|s| s.to_string()).collect()
}

fn status_parts(status: &StatusText) -> (String, Vec<(String, String)>) {
    match status {
        StatusText::Message { key, args } => (key.clone(), args.clone()),
        StatusText::Raw(text) => (format!("raw:{text}"), Vec::new()),
    }
}

#[test]
fn font_families_are_filtered_sorted_and_unique() {
    let names = strings(&[".SF NS", "Zeta", "Arial", "Zeta", "arial", ".Hidden", "Menlo"]);
    assert_eq!(installed_font_families(names), strings(&["Arial", "Menlo", "Zeta", "arial"]));
    assert!(installed_font_families(Vec::new()).is_empty());
    assert!(installed_font_families(strings(&[".a", ".b"])).is_empty());
}

#[test]
fn strings_compare_by_code_point() {
    assert!(str_lt("Arial", "arial"));
    assert!(str_lt("ab", "abc"));
    assert!(!str_lt("abc", "ab"));
    assert!(!str_lt("same", "same"));
    assert!(str_lt("", "a"));
    assert!(str_lt("z", "é"));
}

#[test]
fn font_options_start_with_the_system_default() {
    let options = font_options(&strings(&["Arial", "Menlo"]), "System default");
    assert_eq!(
        options,
        vec![
            (None, "System default".to_string()),
            (Some("Arial".to_string()), "Arial".to_string()),
            (Some("Menlo".to_string()), "Menlo".to_string()),
        ]
    );
}

#[test]
fn integers_parse_as_i64_does() {
    for text in ["0", "42", "-7", "+15", "007", "9223372036854775807", "-9223372036854775808", "", "-", "+", "1a",
        " 1", "9223372036854775808", "-9223372036854775809", "99999999999999999999999", "--1"]
    {
        assert_eq!(parse_i64_exec(text), text.parse::<i64>().ok(), "{text:?}");
    }
}

#[test]
fn numbers_and_booleans_print_as_display_does() {
    for n in [0i64, 7, -7, 1234567890, i64::MAX, i64::MIN] {
        assert_eq!(i64_string(n), n.to_string());
    }
    assert_eq!(bool_string(true), "true");
    assert_eq!(bool_string(false), "false");
}

#[test]
fn setting_values_display_and_parse() {
    assert_eq!(setting_display(&SettingValue::Integer(-12)), "-12");
    assert_eq!(setting_display(&SettingValue::Boolean(true)), "true");
    assert_eq!(setting_display(&SettingValue::Time("07:30".into())), "07:30");
    assert_eq!(setting_display(&SettingValue::Select("fast".into())), "fast");
    assert_eq!(edited_setting_value("  15 ", false, true), SettingValue::Integer(15));
    assert_eq!(edited_setting_value(" ten ", false, true), SettingValue::String("ten".into()));
    assert_eq!(edited_setting_value(" 09:00 ", true, false), SettingValue::Time("09:00".into()));
    assert_eq!(edited_setting_value(" 15 ", false, false), SettingValue::String("15".into()));
}

#[test]
fn run_triggers_and_hints_name_their_message() {
    assert_eq!(status_parts(&trigger_display(&RunTrigger::Manual)).0, "extensions-history-trigger-manual");
    let (key, args) = status_parts(&trigger_display(&RunTrigger::Schedule {
        trigger_id: "nightly".into(),
        event_type: "schedule.daily".into(),
    }));
    assert_eq!(key, "extensions-history-trigger-event");
    assert_eq!(args, vec![("event_type".into(), "schedule.daily".into()), ("trigger_id".into(), "nightly".into())]);

    let mut settings = default_settings();
    settings.values.insert("at".into(), SettingValue::Time("08:15".into()));
    settings.values.insert("every".into(), SettingValue::Integer(30));
    let daily = next_event_hint("schedule.daily", Some("at"), None, &settings).unwrap();
    assert_eq!(status_parts(&daily), ("extensions-daily-at".into(), vec![("time".into(), "08:15".into())]));
    let interval = next_event_hint("schedule.interval", None, Some("every"), &settings).unwrap();
    assert_eq!(status_parts(&interval), ("extensions-every-minutes".into(), vec![("minutes".into(), "30".into())]));
    assert!(next_event_hint("schedule.interval", None, Some("at"), &settings).is_none());
    assert!(next_event_hint("schedule.daily", None, None, &settings).is_none());
    let event = next_event_hint("repository.status_changed", None, None, &settings).unwrap();
    assert_eq!(status_parts(&event).0, "extensions-on-event");
}

#[test]
fn capability_summary_joins_present_labels() {
    assert_eq!(capabilities_summary(true, true, "Manual", "Events"), "Manual · Events");
    assert_eq!(capabilities_summary(true, false, "Manual", "Events"), "Manual");
    assert_eq!(capabilities_summary(false, true, "Manual", "Events"), "Events");
    assert_eq!(capabilities_summary(false, false, "Manual", "Events"), "");
}

#[test]
fn interval_schedules_fire_once_per_interval() {
    let mut ticks = IntervalTicks::new();
    let minute: i128 = 60_000_000_000;
    assert!(!ticks.poll("ext", "t", 0, 4 * minute, 5));
    assert!(ticks.poll("ext", "t", 4 * minute, 5 * minute, 5));
    assert!(!ticks.poll("ext", "t", 5 * minute, 5 * minute, 5));
    assert!(!ticks.poll("ext", "t", 5 * minute, 9 * minute, 5));
    assert!(ticks.poll("ext", "t", 9 * minute, 10 * minute, 5));
    // A schedule below one minute still waits a minute.
    assert!(!ticks.poll("ext", "u", 10 * minute, 11 * minute - 1, 0));
    assert!(ticks.poll("ext", "u", 10 * minute, 11 * minute, 0));
}

#[test]
fn a_running_session_blocks_its_repository() {
    let (window, _) = AgentSessionWindow::new(AgentSessionKind::Commit, "Codex".into(), None, true, Some(1));
    let entries = vec![SessionEntry { key: commit_key("/repo"), window }];
    assert!(running_session_exists(&entries, "commit:/repo"));
    assert!(!running_session_exists(&entries, "commit:/other"));

    let refused = session_plan(
        "codex",
        true,
        SessionOperation::Repository { operation: RepositoryOperation::Commit, hint: None },
        Some("/repo".into()),
        &entries,
    );
    assert!(matches!(refused, Err(e) if e == "an Agent session is already active for this repository"));
}

#[test]
fn extension_session_requests_become_plans() {
    let none: Vec<SessionEntry> = Vec::new();
    let missing = session_plan("ghost", false, SessionOperation::Prompt { prompt: "p".into() }, None, &none);
    assert!(matches!(missing, Err(e) if e == "configured Agent profile is unavailable: ghost"));
    let no_repo = session_plan(
        "codex",
        true,
        SessionOperation::Repository { operation: RepositoryOperation::Commit, hint: None },
        None,
        &none,
    );
    assert!(matches!(no_repo, Err(e) if e == "a repository Agent operation requires a repository"));
    match session_plan(
        "codex",
        true,
        SessionOperation::Repository {
            operation: RepositoryOperation::Merge { target_oid: "abc".into() },
            hint: None,
        },
        Some("/r".into()),
        &none,
    ) {
        Ok(SessionPlan::Merge { key, path, mode: AgentMergeMode::Start { target_oid } }) => {
            assert_eq!((key.as_str(), path.as_str(), target_oid.as_str()), ("commit:/r", "/r", "abc"));
        },
        _ => panic!("expected a merge plan"),
    }
    match session_plan(
        "codex",
        true,
        SessionOperation::Repository {
            operation: RepositoryOperation::ResolveRebase { rebase_head_oid: Some("h".into()), upstream_oid: None },
            hint: None,
        },
        Some("/r".into()),
        &none,
    ) {
        Ok(SessionPlan::Rebase { mode: AgentRebaseMode::Resolve { upstream_oid, rebase_head_oid }, .. }) => {
            assert_eq!(upstream_oid, None);
            assert_eq!(rebase_head_oid.as_deref(), Some("h"));
        },
        _ => panic!("expected a rebase plan"),
    }
    match session_plan("codex", true, SessionOperation::Prompt { prompt: "explain".into() }, None, &none) {
        Ok(SessionPlan::Prompt { path, prompt }) => {
            assert_eq!(path, None);
            assert_eq!(prompt, "explain");
        },
        _ => panic!("expected a prompt plan"),
    }
}

#[test]
fn names_are_validated_before_confirmation() {
    let existing = strings(&["main", "dev"]);
    assert_eq!(validated_name_in("feature", &existing, None), Some("feature".to_string()));
    assert_eq!(validated_name_in("dev", &existing, None), None);
    assert_eq!(validated_name_in("dev", &existing, Some("dev")), Some("dev".to_string()));
    assert_eq!(validated_name_in("", &existing, None), None);
    assert_eq!(validated_name_in("a..b", &existing, None), None);
}

#[test]
fn sidebar_requests_route_to_actions() {
    match sidebar_action(SidebarEvent::BranchSelected("dev".into())) {
        SidebarAction::Status(status) => {
            assert_eq!(status_parts(&status), ("branch-selected".into(), vec![("name".into(), "dev".into())]));
        },
        _ => panic!("expected a status line"),
    }
    assert!(matches!(sidebar_action(SidebarEvent::CheckoutRef("v1".into())), SidebarAction::Checkout(t) if t == "v1"));
    assert!(matches!(
        sidebar_action(SidebarEvent::DeleteTag("v1".into())),
        SidebarAction::OpenDialog(PendingBranchDialog::DeleteRef { name, is_tag: true }) if name == "v1"
    ));
    assert!(matches!(
        sidebar_action(SidebarEvent::RenameRemoteBranch { remote: "origin".into(), branch: "x".into() }),
        SidebarAction::OpenDialog(PendingBranchDialog::RenameRemote { remote, old }) if remote == "origin" && old == "x"
    ));
    assert!(matches!(
        sidebar_action(SidebarEvent::MergeIntoCurrent { name: "dev".into(), no_ff: true }),
        SidebarAction::MergeIntoCurrent { name, no_ff: true } if name == "dev"
    ));
}

#[test]
fn composer_context_describes_the_selection() {
    assert_eq!(short_oid("0123456789abcdef"), "0123456");
    assert_eq!(short_oid("abc"), "abc");
    assert_eq!(context_summary(&ReviewSelection::NoSelection, "  ", "No selection"), "No selection");
    assert_eq!(
        context_summary(&ReviewSelection::Commit { oid: "0123456789".into() }, "main", "-"),
        "commit: 0123456 · branch: main"
    );
    assert_eq!(
        context_summary(&ReviewSelection::CommitFile { oid: "0123456789".into(), path: "a.rs".into() }, "", "-"),
        "commit 0123456: a.rs"
    );
    assert_eq!(
        context_summary(&ReviewSelection::WorkingTreeFile { path: "b.rs".into() }, "dev", "-"),
        "working tree: b.rs · branch: dev"
    );
    assert_eq!(
        context_summary(
            &ReviewSelection::Comparison { base: "main".into(), target: "dev".into(), path: Some("c.rs".into()) },
            "",
            "-"
        ),
        "comparison main → dev: c.rs"
    );
    assert_eq!(
        context_summary(&ReviewSelection::Comparison { base: "a".into(), target: "b".into(), path: None }, "", "-"),
        "comparison a → b"
    );
}

#[test]
fn the_profile_editor_trims_and_splits_arguments() {
    assert_eq!(args_from_text("--yes  \n\n  --model x\r\n   \nlast"), strings(&["--yes", "  --model x", "last"]));
    assert!(args_from_text("").is_empty());
    let profile = editor_profile(" my-agent ", " My Agent ", " /bin/agent ", "-q\n", true, " --prompt ");
    assert_eq!(profile.id, "my-agent");
    assert_eq!(profile.name, "My Agent");
    assert_eq!(profile.launch.executable, "/bin/agent");
    assert_eq!(profile.launch.args, strings(&["-q"]));
    assert_eq!(profile.launch.prompt_flag.as_deref(), Some("--prompt"));
    let trailing = editor_profile("a", "b", "c", "", false, "--ignored");
    assert_eq!(trailing.launch.prompt_flag, None);
}

#[test]
fn reopening_a_saved_profile_saves_it_unchanged() {
    let profile = CustomAgentProfile {
        id: "agent".to_string(),
        name: "Agent".to_string(),
        launch: ProfileLaunch {
            executable: "/usr/bin/agent".to_string(),
            args: strings(&["--yes", "--model x"]),
            prompt_flag: Some("-p".to_string()),
        },
    };
    let fields = editor_fields(Some(&profile));
    assert_eq!(fields.previous_id.as_deref(), Some("agent"));
    assert_eq!(fields.args, "--yes\n--model x");
    assert!(fields.flag_mode);
    let saved =
        editor_profile(&fields.id, &fields.name, &fields.executable, &fields.args, fields.flag_mode, &fields.prompt_flag);
    assert_eq!(saved.id, profile.id);
    assert_eq!(saved.name, profile.name);
    assert_eq!(saved.launch.executable, profile.launch.executable);
    assert_eq!(saved.launch.args, profile.launch.args);
    assert_eq!(saved.launch.prompt_flag, profile.launch.prompt_flag);

    let blank = editor_fields(None);
    assert_eq!(blank.previous_id, None);
    assert_eq!(blank.id, "custom-agent");
    assert!(!blank.flag_mode);
}

#[test]
fn stale_probe_rounds_are_ignored() {
    let mut probes = AgentProbes::new();
    let first = probes.start(&strings(&["codex", "aider"]));
    assert_eq!(probes.results, vec![("codex".to_string(), None), ("aider".to_string(), None)]);
    let second = probes.start(&strings(&["codex"]));
    assert_ne!(first, second);
    assert!(!probes.is_current(first));
    assert!(!probes.finish(first, vec![("codex".to_string(), Ok("1.0".to_string()))]));
    assert_eq!(probes.results, vec![("codex".to_string(), None)]);
    assert!(probes.finish(second, vec![("codex".to_string(), Err("not found".to_string()))]));
    assert_eq!(probes.results, vec![("codex".to_string(), Some(Err("not found".to_string())))]);
}

#[test]
fn merge_results_are_probed_for_conflicts() {
    let mut merges = MergeTracker::new();
    assert!(matches!(merges.handle_result("merge".into(), true, String::new()), MergeStep::Untracked));

    merges.start("dev".into(), false);
    assert!(matches!(merges.handle_result("merge".into(), true, String::new()), MergeStep::Succeeded { label } if label == "merge"));
    assert!(merges.pending.is_none());

    merges.start("dev".into(), true);
    let request = match merges.handle_result("merge --no-ff".into(), false, "CONFLICT".into()) {
        MergeStep::Probe { request_id, label, source, detail } => {
            assert_eq!((label.as_str(), source.as_str(), detail.as_str()), ("merge --no-ff", "dev", "CONFLICT"));
            request_id
        },
        _ => panic!("expected a probe"),
    };
    assert_eq!(request, 1);
    assert!(merges.finish_probe(request + 1, "l".into(), "s".into(), "d".into(), Ok(None)).is_none());
    assert!(matches!(
        merges.finish_probe(request, "merge".into(), "dev".into(), "CONFLICT".into(), Ok(Some("beef".into()))),
        Some(MergeConfirmation::Conflict { source, detail, merge_head }) if source == "dev" && detail == "CONFLICT" && merge_head == "beef"
    ));
    assert!(matches!(
        merges.finish_probe(request, "merge".into(), "dev".into(), "failed".into(), Err("no repo".into())),
        Some(MergeConfirmation::Error { label, detail }) if label == "merge" && detail == "failed\n\nno repo"
    ));

    merges.abort_pending = true;
    assert!(matches!(
        merges.handle_result("merge --abort".into(), false, "locked".into()),
        MergeStep::AbortFailed { label, detail } if label == "merge --abort" && detail == "locked"
    ));
    assert!(!merges.abort_pending);
}

#[test]
fn tab_headers_change_only_when_different() {
    let id: TabId = 3;
    let mut stored = TabSummary { id, title: "repo".into(), branch: Some("main".into()), state: TabState::Ready };
    let same = TabSummary { id, title: "repo".into(), branch: Some("main".into()), state: TabState::Ready };
    assert!(!update_summary(&mut stored, same));
    let moved = TabSummary { id, title: "repo".into(), branch: Some("dev".into()), state: TabState::Ready };
    assert!(update_summary(&mut stored, moved));
    assert_eq!(stored.branch.as_deref(), Some("dev"));
}

#[test]
fn prompt_sessions_run_in_the_repository_or_home() {
    assert_eq!(prompt_working_directory(Some("/repo".into()), Some("/home/u".into())), "/repo");
    assert_eq!(prompt_working_directory(None, Some("/home/u".into())), "/home/u");
    assert_eq!(prompt_working_directory(None, None), ".");
    assert_eq!(prompt_with_challenge("Summarize", "Reply DONE-42"), "Summarize\n\nReply DONE-42");
    assert_eq!(prompt_session_key(17), "extension-prompt:17");
}

#[test]
fn destructive_operations_wait_for_confirmation() {
    let mut confirmation: TabConfirmation<&str, ()> = TabConfirmation::new();
    assert_eq!(confirmation.confirm_discard(), None);

    let modified = DiscardFile { conflicted: false, untracked: false };
    let untracked = DiscardFile { conflicted: false, untracked: true };
    let conflicted = DiscardFile { conflicted: true, untracked: false };
    assert!(!confirmation.request_discard("all", &vec![modified, conflicted], false));
    assert!(!confirmation.request_discard("all", &vec![modified], true));
    assert!(confirmation.request_discard("all", &vec![modified, untracked, untracked], false));
    assert!(matches!(
        confirmation.pending,
        Some(PendingConfirmation::Discard { scope: "all", tracked_count: 1, untracked_count: 2 })
    ));
    assert_eq!(confirmation.confirm_discard(), Some("all"));
    assert_eq!(confirmation.kind(), None);

    assert!(!confirmation.request_force_push(true));
    assert!(confirmation.request_force_push(false));
    assert_eq!(confirmation.kind(), Some(ConfirmationKind::ForcePush));
    assert!(!confirmation.start_force_push(true));
    assert!(confirmation.start_force_push(false));
    assert_eq!(confirmation.kind(), None);

    let remotes = strings(&["upstream", "origin"]);
    assert!(!confirmation.request_push_upstream("HEAD", &None, &remotes));
    assert!(!confirmation.request_push_upstream("dev", &Some("origin/dev".into()), &remotes));
    assert!(confirmation.request_push_upstream("dev", &None, &remotes));
    assert_eq!(confirmation.start_push_upstream(false), Some(("origin".to_string(), "dev".to_string())));
    assert!(confirmation.request_push_upstream("dev", &None, &remotes));
    assert_eq!(confirmation.start_push_upstream(true), None);
    assert!(!confirmation.cancel());
}

#[test]
fn reloading_forgets_schedules_and_pending_events() {
    let minute: i128 = 60_000_000_000;
    let mut ticks = IntervalTicks::new();
    assert!(ticks.poll("ext", "t", 0, 5 * minute, 5));
    ticks.clear();
    // Forgotten: the schedule counts from the previous poll again.
    assert!(!ticks.poll("ext", "t", 5 * minute, 5 * minute, 5));
    let mut pending = PendingEvents::new();
    pending.clear();
    assert!(pending.batches().is_empty());
}

#[test]
fn notifications_show_title_and_body() {
    assert!(matches!(notification_status("Sync", "3 tabs pushed"), StatusText::Raw(t) if t == "Sync: 3 tabs pushed"));
}

#[test]
fn active_runs_are_reported_by_number() {
    assert_eq!(
        status_parts(&active_run_status(12)),
        ("extensions-status-active-run".into(), vec![("run_id".into(), "12".into())])
    );
}

#[test]
fn commit_submissions_follow_the_chosen_action() {
    assert_eq!(commit_submit(CommitAction::Commit, true), CommitStep::Ignore);
    assert_eq!(commit_submit(CommitAction::Commit, false), CommitStep::Run { amend: false });
    assert_eq!(commit_submit(CommitAction::Amend, false), CommitStep::Run { amend: true });
    assert_eq!(commit_submit(CommitAction::CommitByAgent, false), CommitStep::RequestAgentCommit);
}

#[test]
fn custom_profiles_are_found_by_id() {
    let profiles = AgentProfiles {
        default_profile_id: None,
        custom_profiles: vec![
            CustomAgentProfile { id: "a".to_string(), name: "First".to_string(), launch: 1 },
            CustomAgentProfile { id: "a".to_string(), name: "Second".to_string(), launch: 2 },
        ],
    };
    assert_eq!(profiles.custom_profile("a").map(|p| p.launch), Some(1));
    assert!(profiles.custom_profile("b").is_none());
}
