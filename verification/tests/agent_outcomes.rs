use augur_workspace::agent_commit::{classify_probe, AgentCommitOutcome, AgentCommitProbe};
use augur_workspace::agent_extension::{commit_outcome, merge_outcome, rebase_outcome, AgentSessionOutcome};
use augur_workspace::agent_merge::{classify_merge_probe, AgentMergeMode, AgentMergeOutcome, AgentMergeProbe};
use augur_workspace::agent_rebase::{
    classify_rebase_probe, AgentRebaseMode, AgentRebaseOutcome, AgentRebaseProbe,
};

fn probe(head: Option<&str>, changes: bool, conflicts: bool) -> AgentCommitProbe {
    AgentCommitProbe {
        head: head.map(str::to_owned),
        has_changes: changes,
        has_conflicts: conflicts,
    }
}

fn merge_probe(
    head: Option<&str>,
    merge_head: Option<&str>,
    changes: bool,
    conflicts: bool,
    ancestor: bool,
) -> AgentMergeProbe {
    AgentMergeProbe {
        head: head.map(str::to_owned),
        merge_head: merge_head.map(str::to_owned),
        has_changes: changes,
        has_conflicts: conflicts,
        target_is_ancestor_of_head: ancestor,
    }
}

fn rebase_probe(
    head: Option<&str>,
    rebase_head: Option<&str>,
    in_progress: bool,
    changes: bool,
    conflicts: bool,
    ancestor: bool,
) -> AgentRebaseProbe {
    AgentRebaseProbe {
        head: head.map(str::to_owned),
        rebase_head: rebase_head.map(str::to_owned),
        rebase_in_progress: in_progress,
        has_changes: changes,
        has_conflicts: conflicts,
        target_is_ancestor_of_head: ancestor,
    }
}

#[test]
fn changed_head_is_the_only_verified_commit() {
    assert_eq!(
        classify_probe(&probe(Some("before"), true, false), &probe(Some("after"), true, false)),
        Some(AgentCommitOutcome::Committed { oid: "after".to_string() })
    );
}

#[test]
fn unborn_head_becoming_a_commit_is_verified() {
    assert_eq!(
        classify_probe(&probe(None, true, false), &probe(Some("new"), false, false)),
        Some(AgentCommitOutcome::Committed { oid: "new".to_string() })
    );
}

#[test]
fn conflicts_and_clean_tree_are_terminal_failures() {
    assert_eq!(
        classify_probe(&probe(Some("same"), true, false), &probe(Some("same"), true, true)),
        Some(AgentCommitOutcome::Conflict)
    );
    assert_eq!(
        classify_probe(&probe(Some("same"), true, false), &probe(Some("same"), false, false)),
        Some(AgentCommitOutcome::NoChanges)
    );
}

#[test]
fn dirty_unchanged_tree_stays_unverified() {
    assert_eq!(
        classify_probe(&probe(Some("same"), true, false), &probe(Some("same"), true, false)),
        None
    );
}

#[test]
fn vanished_head_is_not_a_commit() {
    assert_eq!(classify_probe(&probe(Some("before"), true, false), &probe(None, true, false)), None);
}

#[test]
fn changed_head_proves_a_new_merge() {
    assert_eq!(
        classify_merge_probe(
            &AgentMergeMode::Start { target_oid: "target".into() },
            Some("base"),
            &merge_probe(Some("merged"), None, false, false, true),
        ),
        Some(AgentMergeOutcome::Merged { oid: "merged".into() })
    );
}

#[test]
fn unchanged_head_is_already_up_to_date_only_for_new_merge() {
    let state = merge_probe(Some("base"), None, false, false, true);
    assert_eq!(
        classify_merge_probe(&AgentMergeMode::Start { target_oid: "target".into() }, Some("base"), &state),
        Some(AgentMergeOutcome::AlreadyUpToDate)
    );
    assert_eq!(
        classify_merge_probe(
            &AgentMergeMode::Resolve { merge_head_oid: "target".into() },
            Some("base"),
            &state,
        ),
        None
    );
}

#[test]
fn merge_state_or_non_ancestor_never_reports_success() {
    assert_eq!(
        classify_merge_probe(
            &AgentMergeMode::Start { target_oid: "target".into() },
            Some("base"),
            &merge_probe(Some("base"), Some("target"), true, true, false),
        ),
        Some(AgentMergeOutcome::Conflict)
    );
    assert_eq!(
        classify_merge_probe(
            &AgentMergeMode::Start { target_oid: "target".into() },
            Some("base"),
            &merge_probe(Some("other"), None, false, false, false),
        ),
        None
    );
}

#[test]
fn merge_mode_names_its_target() {
    assert_eq!(AgentMergeMode::Start { target_oid: "t1".into() }.target_oid(), "t1");
    assert_eq!(AgentMergeMode::Resolve { merge_head_oid: "m1".into() }.target_oid(), "m1");
}

#[test]
fn changed_head_and_ancestor_upstream_prove_rebase() {
    assert_eq!(
        classify_rebase_probe(
            &AgentRebaseMode::Start { upstream_oid: "upstream".into() },
            Some("base"),
            &rebase_probe(Some("rebased"), None, false, false, false, true),
        ),
        Some(AgentRebaseOutcome::Rebased { oid: "rebased".into() })
    );
}

#[test]
fn unchanged_head_is_already_up_to_date_only_for_new_rebase() {
    let state = rebase_probe(Some("base"), None, false, false, false, true);
    assert_eq!(
        classify_rebase_probe(&AgentRebaseMode::Start { upstream_oid: "upstream".into() }, Some("base"), &state),
        Some(AgentRebaseOutcome::AlreadyUpToDate)
    );
    assert_eq!(
        classify_rebase_probe(
            &AgentRebaseMode::Resolve { upstream_oid: None, rebase_head_oid: Some("current".into()) },
            Some("base"),
            &state,
        ),
        None
    );
}

#[test]
fn conflicts_or_unfinished_rebase_never_report_success() {
    assert_eq!(
        classify_rebase_probe(
            &AgentRebaseMode::Start { upstream_oid: "upstream".into() },
            Some("base"),
            &rebase_probe(Some("base"), Some("pick"), true, true, true, false),
        ),
        Some(AgentRebaseOutcome::Conflict)
    );
    assert_eq!(
        classify_rebase_probe(
            &AgentRebaseMode::Start { upstream_oid: "upstream".into() },
            Some("base"),
            &rebase_probe(Some("other"), None, false, false, false, false),
        ),
        None
    );
}

#[test]
fn pull_rebase_resolution_accepts_changed_clean_head_without_target() {
    assert_eq!(
        classify_rebase_probe(
            &AgentRebaseMode::Resolve { upstream_oid: None, rebase_head_oid: None },
            Some("before"),
            &rebase_probe(Some("after"), None, false, false, false, false),
        ),
        Some(AgentRebaseOutcome::Rebased { oid: "after".into() })
    );
}

#[test]
fn rebase_mode_names_its_upstream() {
    assert_eq!(AgentRebaseMode::Start { upstream_oid: "u".into() }.upstream_oid(), Some("u"));
    assert_eq!(
        AgentRebaseMode::Resolve { upstream_oid: None, rebase_head_oid: Some("r".into()) }.upstream_oid(),
        None
    );
}

#[test]
fn extension_replies_follow_the_window_outcome() {
    assert_eq!(
        commit_outcome(&AgentCommitOutcome::Committed { oid: "x".into() }),
        AgentSessionOutcome::Confirmed { summary: "the Agent reported the commit complete".into() }
    );
    assert_eq!(
        commit_outcome(&AgentCommitOutcome::ExitedUnverified { code: Some(3) }),
        AgentSessionOutcome::Unconfirmed {
            exit_code: Some(3),
            summary: "the Agent exited without the completion marker".into()
        }
    );
    assert_eq!(commit_outcome(&AgentCommitOutcome::Cancelled), AgentSessionOutcome::Cancelled);
    assert_eq!(
        merge_outcome(&AgentMergeOutcome::AlreadyUpToDate),
        AgentSessionOutcome::Confirmed { summary: "the Agent reported the merge complete".into() }
    );
    assert_eq!(
        rebase_outcome(&AgentRebaseOutcome::Failed),
        AgentSessionOutcome::Unconfirmed { exit_code: None, summary: "the Agent did not complete the rebase".into() }
    );
}
