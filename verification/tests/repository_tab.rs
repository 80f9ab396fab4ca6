use augur_workspace::agent_tab_sessions::{
    session_title, short_oid, truncate_title, AgentSession, AgentSessionList, CloseSession,
};
use augur_workspace::extension_actions::StatusText;
use augur_workspace::preferences::{
    profile_options, propose_override, AgentProfiles, CustomAgentProfile, LaunchOverrides, OverrideField,
};
use augur_workspace::repo_events::{
    command_route, error_label, next_request_id, operation_result_key, operation_status, refreshes_after,
    status_summary, BranchInfo, CommandRoute, FileState, WorkingTreeAction, WorkingTreeScopeKind,
};
use augur_workspace::repo_tab_state::{
    discard_request, repo_title, summary, toolbar_action, BusyChange, DiscardFile, GitStatusKind,
    GraphHistoryPreference, LogScope, RepoTabState, TabState, ToolbarAction, ToolbarContext, ToolbarEvent,
};

fn key(status: &StatusText) -> String {
    match status {
        StatusText::Message { key, .. } => key.clone(),
        StatusText::Raw(text) => format!("raw:{text}"),
    }
}

fn args(status: &StatusText) -> Vec<(String, String)> {
    match status {
        StatusText::Message { args, .. } => args.clone(),
        StatusText::Raw(_) => Vec::new(),
    }
}

#[test]
fn working_tree_results_have_their_own_messages() {
    assert_eq!(operation_result_key(WorkingTreeAction::Stage, WorkingTreeScopeKind::File, true), "changes-stage-success");
    assert_eq!(
        operation_result_key(WorkingTreeAction::Discard, WorkingTreeScopeKind::All, true),
        "changes-discard-all-success"
    );
    assert_eq!(
        operation_result_key(WorkingTreeAction::Unstage, WorkingTreeScopeKind::All, false),
        "changes-operation-failed"
    );
    let failed = operation_status(WorkingTreeAction::Stage, WorkingTreeScopeKind::File, false, "lock held\nmore");
    assert_eq!(args(&failed), vec![("error".to_string(), "lock held".to_string())]);
}

#[test]
fn finished_commands_go_to_their_handlers() {
    assert!(matches!(command_route("merge --no-ff", true, ""), CommandRoute::Merge));
    assert!(matches!(command_route("pull --rebase", false, "x"), CommandRoute::Rebase));
    assert!(matches!(
        command_route("push", false, "fatal: The current branch x has no upstream branch."),
        CommandRoute::OfferPushUpstream
    ));
    match command_route("copy-commit-message", false, "gone\nmore") {
        CommandRoute::CopyCommitMessage { failure: Some(status) } => {
            assert_eq!(key(&status), "context-copy-commit-message-failed");
            assert_eq!(args(&status), vec![("error".to_string(), "gone".to_string())]);
        }
        _ => panic!("expected a copy failure"),
    }
    match command_route("fetch --all --prune", true, "") {
        CommandRoute::Report { status, refresh } => {
            assert!(refresh);
            assert_eq!(key(&status), "command-success");
        }
        _ => panic!("expected a report"),
    }
    match command_route("push", false, "rejected\nhint") {
        CommandRoute::Report { status, refresh } => {
            assert!(!refresh);
            assert_eq!(
                args(&status),
                vec![("label".to_string(), "push".to_string()), ("error".to_string(), "rejected".to_string())]
            );
        }
        _ => panic!("expected a report"),
    }
    assert!(refreshes_after("stash drop"));
    assert!(!refreshes_after("apply"));
}

#[test]
fn worker_errors_during_merges_and_rebases_keep_their_label() {
    assert_eq!(error_label(Some(true), false, None, false), Some((true, "merge --no-ff".to_string())));
    assert_eq!(error_label(Some(false), true, None, false), Some((true, "merge --abort".to_string())));
    assert_eq!(error_label(None, false, Some("pull --rebase"), false), Some((false, "pull --rebase".to_string())));
    assert_eq!(error_label(None, false, None, true), Some((false, "rebase --abort".to_string())));
    assert_eq!(error_label(None, false, None, false), None);
}

#[test]
fn request_numbers_skip_zero() {
    assert_eq!(next_request_id(0), 1);
    assert_eq!(next_request_id(41), 42);
    assert_eq!(next_request_id(u64::MAX), 1);
}

#[test]
fn status_snapshots_are_summarized() {
    let files = vec![
        FileState { staged: true, worktree: false, conflicted: false },
        FileState { staged: false, worktree: true, conflicted: false },
        FileState { staged: false, worktree: false, conflicted: true },
    ];
    let branches = vec![
        BranchInfo { name: "main".into(), is_head: true },
        BranchInfo { name: "dev".into(), is_head: false },
    ];
    let s = status_summary(&files, &branches, false, 3);
    assert_eq!((s.staged_count, s.unstaged_count, s.local_change_count), (1, 2, 3));
    assert!(s.has_staged && s.has_unresolved_conflicts && s.probe_merge_state);
    assert_eq!(s.local_branches, vec!["dev".to_string()]);
    let clean = status_summary(&Vec::new(), &Vec::new(), true, 3);
    assert!(clean.has_unresolved_conflicts);
    let quiet = status_summary(&Vec::new(), &Vec::new(), false, 3);
    assert!(!quiet.has_unresolved_conflicts && !quiet.probe_merge_state);
    assert!(status_summary(&Vec::new(), &Vec::new(), false, 0).probe_merge_state);
}

#[test]
fn busy_tabs_defer_agent_refreshes() {
    let mut tab = RepoTabState::new();
    assert!(!tab.refresh_if_ready());
    tab.opened = true;
    assert!(tab.request_agent_refresh(1_000));
    assert!(!tab.request_agent_refresh(1_100));
    assert_eq!(tab.set_operation_busy(true), BusyChange::Changed { refresh: false });
    assert_eq!(tab.set_operation_busy(true), BusyChange::Unchanged);
    assert!(!tab.request_agent_refresh(2_000));
    assert!(tab.agent_refresh_pending);
    assert_eq!(tab.set_operation_busy(false), BusyChange::Changed { refresh: true });
    assert!(!tab.agent_refresh_pending);
}

#[test]
fn working_tree_operations_number_their_requests() {
    let mut tab = RepoTabState::new();
    assert_eq!(tab.start_working_tree_operation(), Some(1));
    assert_eq!(tab.start_working_tree_operation(), None);
    assert!(tab.is_current_operation(1));
    tab.set_operation_busy(false);
    assert_eq!(tab.start_working_tree_operation(), Some(2));
    assert!(!tab.is_current_operation(1));
    assert_eq!(tab.next_working_diff_request(), 1);
}

#[test]
fn the_log_scope_is_sent_only_when_it_changes() {
    let mut tab = RepoTabState::new();
    assert!(tab.sync_log_scope(GraphHistoryPreference::AllBranches, &None).is_none());
    assert!(tab.sync_log_scope(GraphHistoryPreference::AllBranches, &None).is_none());
    match tab.sync_log_scope(GraphHistoryPreference::CurrentBranch, &Some("origin/main".into())) {
        Some(LogScope::CurrentBranch { upstream }) => assert_eq!(upstream.as_deref(), Some("origin/main")),
        _ => panic!("expected a scope change"),
    }
    assert!(tab.sync_log_scope(GraphHistoryPreference::CurrentBranch, &Some("origin/main".into())).is_none());
    assert!(matches!(tab.sync_log_scope(GraphHistoryPreference::AllBranches, &None), Some(LogScope::AllBranches)));
}

#[test]
fn tab_headers_name_the_repository_directory() {
    assert_eq!(repo_title("/home/me/augur/"), "augur");
    assert_eq!(repo_title(r"C:\repos\tool"), "tool");
    assert_eq!(repo_title("///"), "///");
    assert_eq!(repo_title("plain"), "plain");
    let s = summary(4, "/x/y", "", GitStatusKind::Ready);
    assert_eq!((s.id, s.title.as_str(), s.branch.clone(), s.state), (4, "y", None, TabState::Ready));
    assert_eq!(summary(4, "/x/y", "main", GitStatusKind::Scanning).state, TabState::Loading);
}

#[test]
fn toolbar_buttons_respect_busy_and_conflicts() {
    let mut ctx = ToolbarContext {
        busy: false,
        has_unresolved_conflicts: true,
        branch: "feature".into(),
        upstream: None,
        remotes: vec!["origin".into()],
    };
    assert!(matches!(toolbar_action(ToolbarEvent::PullMerge, &ctx), ToolbarAction::Ignore));
    match toolbar_action(ToolbarEvent::Push, &ctx) {
        ToolbarAction::OfferPushUpstream { remote } => assert_eq!(remote, "origin"),
        _ => panic!("expected the publish offer"),
    }
    ctx.upstream = Some("origin/feature".into());
    match toolbar_action(ToolbarEvent::Push, &ctx) {
        ToolbarAction::Run { label, args } => {
            assert_eq!(label, "push");
            assert_eq!(args, vec!["push".to_string()]);
        }
        _ => panic!("expected a push"),
    }
    ctx.busy = true;
    assert!(matches!(toolbar_action(ToolbarEvent::Fetch, &ctx), ToolbarAction::Ignore));
    assert!(matches!(toolbar_action(ToolbarEvent::PushForce, &ctx), ToolbarAction::Ignore));
    assert!(matches!(toolbar_action(ToolbarEvent::Settings, &ctx), ToolbarAction::OpenSettings));
}

#[test]
fn discarding_counts_tracked_and_untracked_files() {
    let files = vec![
        DiscardFile { conflicted: false, untracked: true },
        DiscardFile { conflicted: false, untracked: false },
        DiscardFile { conflicted: false, untracked: false },
    ];
    assert_eq!(discard_request(&files, false), Some((2, 1)));
    assert_eq!(discard_request(&files, true), None);
    assert_eq!(discard_request(&Vec::new(), false), None);
    assert_eq!(discard_request(&vec![DiscardFile { conflicted: true, untracked: false }], false), None);
}

#[test]
fn session_titles_come_from_the_first_request_line() {
    assert_eq!(session_title("  fix the build  \nmore", "Codex"), "fix the build");
    assert_eq!(session_title("   \nsecond", "Codex"), "Codex");
    let long = "x".repeat(85);
    assert_eq!(truncate_title(&long), format!("{}…", "x".repeat(80)));
    assert_eq!(truncate_title("short"), "short");
    assert_eq!(short_oid("0123456789abcdef"), "0123456");
    assert_eq!(short_oid("abc"), "abc");
}

#[test]
fn closing_sessions_confirms_running_ones() {
    let mut list = AgentSessionList::new();
    let a = list.allocate_id();
    list.push(AgentSession::new(a, "Codex".into(), "first task"));
    let b = list.allocate_id();
    list.push(AgentSession::new(b, "Aider".into(), "second task"));
    assert_eq!((a, b), (1, 2));
    assert_eq!(list.active(), Some(2));
    assert!(list.any_running());
    assert_eq!(list.running_count(), 2);
    assert_eq!(list.running_labels(), vec!["Codex · first task".to_string(), "Aider · second task".to_string()]);
    assert_eq!(list.request_close(2), CloseSession::NeedsConfirmation);
    assert!(list.remove_session(2));
    assert_eq!(list.active(), Some(1));
    assert_eq!(list.request_close(9), CloseSession::Unknown);
    assert_eq!(list.terminate_all(), 1);
    assert!(!list.any_running());
    assert_eq!(list.request_close(1), CloseSession::Removed);
    assert_eq!(list.active(), None);
}

#[test]
fn session_status_lines_follow_the_terminal() {
    let mut session = AgentSession::new(1, "Codex".into(), "task");
    assert_eq!(key(&session.state_label()), "agent-status-starting");
    assert!(!session.monitor_tick(None, 5_000));
    assert_eq!(key(&session.recent_activity_label(5_500)), "agent-activity-now");
    assert_eq!(args(&session.recent_activity_label(12_400)), vec![("seconds".to_string(), "7".to_string())]);
    assert!(session.monitor_tick(Some(Ok(Some(-2))), 6_000));
    assert_eq!(args(&session.state_label()), vec![("code".to_string(), "-2".to_string())]);
    assert!(!session.terminate());
    assert_eq!(session.tab_label(), "Codex · task");
}

fn profile(id: &str, name: &str) -> CustomAgentProfile<()> {
    CustomAgentProfile { id: id.into(), name: name.into(), launch: () }
}

#[test]
fn saving_and_removing_custom_profiles() {
    let mut profiles = AgentProfiles { default_profile_id: Some("old".to_string()), custom_profiles: vec![profile("old", "Old")] };
    profiles.save_profile(Some("old"), profile("new", "New"));
    assert_eq!(profiles.default_profile_id.as_deref(), Some("new"));
    assert_eq!(profiles.custom_profiles.iter().map(|p| p.id.clone()).collect::<Vec<_>>(), vec!["new".to_string()]);
    assert!(!profiles.remove_profile("missing"));
    assert!(profiles.remove_profile("new"));
    assert_eq!(profiles.default_profile_id, None);
    assert!(profiles.set_default_profile("codex".into(), true));
    assert!(!profiles.set_default_profile("codex".into(), true));
    assert!(!profiles.set_default_profile("unknown".into(), false));
    profiles.clear_default_if("codex");
    assert_eq!(profiles.default_profile_id, None);
}

#[test]
fn the_profile_menu_lists_builtins_first_without_duplicates() {
    let builtins = vec![("codex".to_string(), "Codex".to_string())];
    let custom = vec![profile("codex", "Shadow"), profile("mine", "Mine"), profile("mine", "Again")];
    assert_eq!(
        profile_options(&builtins, &custom),
        vec![("codex".to_string(), "Codex".to_string()), ("mine".to_string(), "Mine".to_string())]
    );
}

#[test]
fn override_changes_are_normalized_and_empty_entries_vanish() {
    let current = Some(LaunchOverrides { model: Some("a".into()), reasoning_effort: None, variant: None });
    assert!(propose_override(&current, OverrideField::Model, Some(" a ".into())).is_none());
    match propose_override(&current, OverrideField::Model, Some("   ".into())) {
        Some(None) => {}
        _ => panic!("expected the entry to vanish"),
    }
    match propose_override(&current, OverrideField::Variant, Some("high".into())) {
        Some(Some(o)) => {
            assert_eq!(o.model.as_deref(), Some("a"));
            assert_eq!(o.variant.as_deref(), Some("high"));
        }
        _ => panic!("expected new overrides"),
    }
    assert!(propose_override(&None, OverrideField::ReasoningEffort, None).is_none());
}
