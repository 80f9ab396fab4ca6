use augur_workspace::branch_dialog::{BranchContext, BranchDialogs, PendingBranchDialog};
use augur_workspace::close_guard::{CloseDecision, CloseGuard, PendingWorkspaceClose};
use augur_workspace::tabs::{fallback_after_close, should_refresh_after_switch, welcome_tab_key, OpenOutcome, TabRegistry};

fn context(branch: &str, locals: &[&str]) -> BranchContext {
    BranchContext {
        branch: branch.to_string(),
        local_branches: locals.iter().map(|s| s.to_string()).collect(),
        has_unresolved_conflicts: false,
        local_change_count: 1,
        stash_count: 1,
        busy: false,
    }
}

#[test]
fn welcome_keys_carry_the_tab_id() {
    assert_eq!(welcome_tab_key(7), "welcome:7");
    assert_eq!(welcome_tab_key(120), "welcome:120");
}

#[test]
fn closing_the_active_tab_selects_its_right_neighbour() {
    assert_eq!(fallback_after_close(&[1, 2, 3], Some(2), 2), Some(3));
    assert_eq!(fallback_after_close(&[1, 2, 3], Some(3), 3), Some(2));
    assert_eq!(fallback_after_close(&[1], Some(1), 1), None);
    assert_eq!(fallback_after_close(&[1, 2, 3], Some(1), 3), Some(1));
}

#[test]
fn switching_refreshes_only_loaded_tabs() {
    assert!(should_refresh_after_switch(true, true));
    assert!(!should_refresh_after_switch(true, false));
    assert!(!should_refresh_after_switch(false, true));
}

#[test]
fn opening_a_repository_twice_reuses_its_tab() {
    let mut tabs = TabRegistry::new();
    let first = tabs.open_repo_path("/repos/a", "/repos/a", false);
    assert_eq!(first, OpenOutcome::Added { id: 1 });
    let second = tabs.open_repo_path("/repos/b", "/repos/b", false);
    assert_eq!(second, OpenOutcome::Added { id: 2 });
    let again = tabs.open_repo_path("/repos/a", "/repos/a", false);
    assert_eq!(again, OpenOutcome::SelectedExisting { id: 1, removed_welcome: None });
    assert_eq!(tabs.active_tab(), Some(1));
    assert_eq!(tabs.tabs().len(), 2);
}

#[test]
fn a_start_page_hosts_the_next_repository() {
    let mut tabs = TabRegistry::new();
    let welcome = tabs.add_welcome_tab();
    assert_eq!(tabs.tabs()[0].key, "welcome:1");
    let outcome = tabs.open_repo_path("/repos/a", "/repos/a", false);
    assert_eq!(outcome, OpenOutcome::FilledWelcome { id: welcome });
    assert_eq!(tabs.tabs().len(), 1);
    assert_eq!(tabs.tabs()[0].path.as_deref(), Some("/repos/a"));
}

#[test]
fn closed_tabs_leave_and_ids_are_not_reused() {
    let mut tabs = TabRegistry::new();
    tabs.open_repo_path("/repos/a", "/repos/a", true);
    tabs.open_repo_path("/repos/b", "/repos/b", true);
    assert!(tabs.close_tab_now(2));
    assert!(!tabs.close_tab_now(2));
    assert_eq!(tabs.active_tab(), Some(1));
    assert_eq!(tabs.find_by_key("/repos/b"), None);
    let outcome = tabs.open_repo_path("/repos/c", "/repos/c", true);
    assert_eq!(outcome, OpenOutcome::Added { id: 3 });
    let (paths, active) = tabs.persisted_config();
    assert_eq!(paths, vec!["/repos/a".to_string(), "/repos/c".to_string()]);
    assert_eq!(active.as_deref(), Some("/repos/c"));
}

#[test]
fn close_requests_wait_for_confirmation_while_work_runs() {
    let mut guard = CloseGuard::new();
    assert_eq!(guard.request_application_close(0), CloseDecision::CloseNow);
    assert_eq!(guard.request_application_close(2), CloseDecision::Deferred);
    assert_eq!(guard.request_tab_close(4, true, true, false), CloseDecision::Ignored);
    assert!(guard.cancel_pending_close());
    assert_eq!(guard.request_tab_close(4, true, true, false), CloseDecision::Deferred);
    assert_eq!(guard.confirm_pending_close(), Some(PendingWorkspaceClose::Tab(4)));
    assert_eq!(guard.confirm_pending_close(), None);
    assert_eq!(guard.request_tab_close(5, false, true, true), CloseDecision::Ignored);
    assert_eq!(guard.request_tab_close(5, true, false, false), CloseDecision::CloseNow);
}

#[test]
fn a_confirmed_new_branch_dialog_switches_to_the_new_branch() {
    let ctx = context("main", &["feature"]);
    let mut dialogs = BranchDialogs::new();
    dialogs.open(PendingBranchDialog::NewBranch, &ctx);
    assert!(dialogs.pending.is_some());
    assert_eq!(dialogs.confirm("feature", &ctx), None);
    assert!(dialogs.pending.is_some());
    let (label, args) = dialogs.confirm("topic", &ctx).unwrap();
    assert_eq!(label, "switch");
    assert_eq!(args, vec!["switch", "-c", "topic"]);
    assert!(dialogs.pending.is_none());
}

#[test]
fn a_merge_dialog_merges_the_selected_source() {
    let ctx = context("main", &["feature"]);
    let mut dialogs = BranchDialogs::new();
    dialogs.open(PendingBranchDialog::Merge { no_ff: true }, &ctx);
    assert_eq!(dialogs.merge_source.as_deref(), Some("feature"));
    let (label, args) = dialogs.confirm("", &ctx).unwrap();
    assert_eq!(label, "merge --no-ff");
    assert_eq!(args, vec!["merge", "feature", "--no-ff"]);
    assert!(!dialogs.close());
}
