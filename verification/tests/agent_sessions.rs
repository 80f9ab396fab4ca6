use augur_workspace::agent_commit::{AgentCommitOutcome, AgentCommitProbe};
use augur_workspace::agent_session::{
    commit_key, commit_outcome_label, connectivity_key, next_session_id, running_count, running_for_repo,
    running_labels, running_labels_for_repo, session_kind_label, session_position, stop_for_repo, AfterBaseline,
    AgentSessionKind, AgentSessionWindow, ConnectivityState, ExitDetail, SessionEntry, StartStep, StatusLabel,
    StopEffect,
};

fn probe(head: Option<&str>, changes: bool) -> AgentCommitProbe {
    AgentCommitProbe { head: head.map(str::to_owned), has_changes: changes, has_conflicts: false }
}

fn commit_window() -> AgentSessionWindow {
    let (mut window, step) = AgentSessionWindow::new(AgentSessionKind::Commit, "Codex".into(), None, true, Some(9));
    assert_eq!(step, StartStep::ProbeBaseline);
    assert!(matches!(window.start_commit_after_probe(Ok(probe(Some("base"), true))), AfterBaseline::StartTerminal));
    window
}

#[test]
fn a_commit_is_reported_once_the_marker_follows_a_new_head() {
    let mut window = commit_window();
    let tick = window.handle_commit_tick(Some(Ok(probe(Some("new"), false))), false, None, 1_000, Some(900));
    assert_eq!(tick.observed_head.as_deref(), Some("new"));
    assert!(tick.finished.is_none());
    assert_eq!(window.state, ConnectivityState::CommitDetected { oid: "new".into() });
    let tick = window.handle_commit_tick(Some(Ok(probe(Some("new"), false))), true, None, 2_000, Some(1_900));
    let finish = tick.finished.unwrap();
    assert_eq!(finish.outcome, AgentCommitOutcome::Committed { oid: "new".into() });
    assert!(finish.notify_workspace);
    assert!(finish.close_window);
    assert!(!window.is_running());
    let later = window.handle_commit_tick(None, true, None, 3_000, None);
    assert!(later.finished.is_none() && later.observed_head.is_none());
}

#[test]
fn a_marker_without_evidence_is_a_failure() {
    let mut window = commit_window();
    let tick = window.handle_commit_tick(Some(Ok(probe(Some("base"), true))), true, None, 1_000, None);
    let finish = tick.finished.unwrap();
    assert_eq!(finish.outcome, AgentCommitOutcome::Failed);
    assert!(!finish.close_window);
}

#[test]
fn an_exit_without_marker_is_unverified() {
    let mut window = commit_window();
    let tick = window.handle_commit_tick(None, false, Some(Ok(Some(2))), 1_000, None);
    assert_eq!(tick.finished.unwrap().outcome, AgentCommitOutcome::ExitedUnverified { code: Some(2) });
}

#[test]
fn a_quiet_terminal_after_a_new_head_completes_the_commit() {
    let mut window = commit_window();
    window.handle_commit_tick(Some(Ok(probe(Some("new"), false))), false, None, 1_000, Some(1_000));
    let early = window.handle_commit_tick(None, false, None, 20_000, Some(1_000));
    assert!(early.finished.is_none());
    let late = window.handle_commit_tick(None, false, None, 31_000, Some(1_000));
    assert_eq!(late.finished.unwrap().outcome, AgentCommitOutcome::Committed { oid: "new".into() });
}

#[test]
fn stopping_cancels_a_commit_and_ends_a_test() {
    let mut window = commit_window();
    match window.stop() {
        StopEffect::CommitCancelled(f) => assert_eq!(f.outcome, AgentCommitOutcome::Cancelled),
        _ => panic!("expected a cancelled commit"),
    }
    assert!(matches!(window.stop(), StopEffect::NotRunning));

    let (mut test, step) = AgentSessionWindow::new(AgentSessionKind::Connectivity, "Aider".into(), None, false, None);
    assert_eq!(step, StartStep::StartTerminal);
    test.handle_connectivity_tick(false, None);
    assert_eq!(test.state, ConnectivityState::WaitingForResponse);
    test.handle_connectivity_tick(true, None);
    assert_eq!(test.state, ConnectivityState::ResponseReceived);
    assert!(matches!(test.stop(), StopEffect::Stopped));
    assert_eq!(test.state, ConnectivityState::Exited { code: None, response_received: true });
}

#[test]
fn a_failed_baseline_finishes_the_commit_with_its_first_line() {
    let (mut window, _) = AgentSessionWindow::new(AgentSessionKind::Commit, "Codex".into(), None, false, None);
    match window.start_commit_after_probe(Err("not a repository\ndetails".into())) {
        AfterBaseline::Finished(f) => {
            assert_eq!(f.outcome, AgentCommitOutcome::Failed);
            assert!(!f.notify_workspace);
        }
        _ => panic!("expected a finished session"),
    }
    assert_eq!(window.state, ConnectivityState::Failed("not a repository".into()));
}

#[test]
fn a_startup_error_starts_nothing() {
    let (window, step) =
        AgentSessionWindow::new(AgentSessionKind::Commit, "Codex".into(), Some("missing".into()), true, None);
    assert_eq!(step, StartStep::Idle);
    assert_eq!(window.state, ConnectivityState::Failed("missing".into()));
}

#[test]
fn status_lines_name_their_message() {
    let window = commit_window();
    match window.state_label() {
        StatusLabel::Text { key } => assert_eq!(key, "agent-commit-status-starting"),
        _ => panic!("expected plain text"),
    }
    let (mut test, _) = AgentSessionWindow::new(AgentSessionKind::Connectivity, "Aider".into(), None, false, None);
    test.handle_connectivity_tick(true, Some(Ok(Some(0))));
    match test.state_label() {
        StatusLabel::TestExited { response_received, exit } => {
            assert!(response_received);
            assert_eq!(exit, ExitDetail::Code(0));
        }
        _ => panic!("expected the exit line"),
    }
}

#[test]
fn keys_labels_and_identifiers() {
    assert_eq!(connectivity_key("aider"), "connectivity:aider");
    assert_eq!(commit_key("/repo"), "commit:/repo");
    assert_eq!(session_kind_label(AgentSessionKind::Commit), "commit session");
    assert_eq!(commit_outcome_label(&AgentCommitOutcome::NoChanges), "no-changes");
    let mut counter = 0u64;
    assert_eq!(next_session_id(&mut counter), 1);
    assert_eq!(next_session_id(&mut counter), 1);
    assert_eq!(next_session_id(&mut counter), 2);
    let mut top = u64::MAX;
    assert_eq!(next_session_id(&mut top), u64::MAX);
    assert_eq!(top, 0);
}

#[test]
fn running_sessions_are_counted_per_repository() {
    let entries = vec![
        SessionEntry { key: commit_key("/a"), window: commit_window() },
        SessionEntry {
            key: connectivity_key("aider"),
            window: AgentSessionWindow::new(AgentSessionKind::Connectivity, "Aider".into(), None, false, None).0,
        },
        SessionEntry {
            key: commit_key("/b"),
            window: AgentSessionWindow::new(AgentSessionKind::Commit, "Gemini".into(), Some("x".into()), true, Some(3)).0,
        },
    ];
    assert_eq!(running_count(&entries), 2);
    assert_eq!(running_labels(&entries), vec!["Codex commit".to_string(), "Aider connectivity test".to_string()]);
    assert_eq!(running_for_repo(&entries, "/a"), 1);
    assert_eq!(running_for_repo(&entries, "/b"), 0);
    assert_eq!(running_labels_for_repo(&entries, "/a"), vec!["Codex commit".to_string()]);
    assert_eq!(stop_for_repo(&entries, "/a"), vec![0]);
    assert!(stop_for_repo(&entries, "/b").is_empty());
    assert_eq!(session_position(&entries, 9), Some(0));
    assert_eq!(session_position(&entries, 3), Some(2));
    assert_eq!(session_position(&entries, 4), None);
}
