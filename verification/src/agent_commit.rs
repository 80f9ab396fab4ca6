//! Outcome classification for Commit by AI sessions.
//!
//! A changed HEAD is the only positive proof of a new commit. Conflicts and a
//! clean unchanged tree are terminal negative outcomes; a dirty unchanged tree
//! remains indeterminate until the Agent exits or emits a marker again.
use vstd::prelude::*;
use crate::text::{opt_view, opt_string_eq};

verus! {

/// Repository state sampled around a Commit by AI session.
pub struct AgentCommitProbe {
    pub head: Option<String>,
    pub has_changes: bool,
    pub has_conflicts: bool,
}

/// Mathematical form of a repository probe.
pub struct CommitProbeView {
    pub head: Option<Seq<char>>,
    pub has_changes: bool,
    pub has_conflicts: bool,
}

impl View for AgentCommitProbe {
    type V = CommitProbeView;

    open spec fn view(&self) -> CommitProbeView {
        CommitProbeView {
            head: opt_view(self.head),
            has_changes: self.has_changes,
            has_conflicts: self.has_conflicts,
        }
    }
}

/// Result of a Commit by AI session.
#[derive(Debug, PartialEq, Eq)]
pub enum AgentCommitOutcome {
    Committed { oid: String },
    NoChanges,
    Conflict,
    Failed,
    Cancelled,
    ExitedUnverified { code: Option<i32> },
}

/// Mathematical form of a commit outcome.
pub enum CommitOutcomeView {
    Committed { oid: Seq<char> },
    NoChanges,
    Conflict,
    Failed,
    Cancelled,
    ExitedUnverified { code: Option<i32> },
}

impl View for AgentCommitOutcome {
    type V = CommitOutcomeView;

    open spec fn view(&self) -> CommitOutcomeView {
        match self {
            AgentCommitOutcome::Committed { oid } => CommitOutcomeView::Committed { oid: oid@ },
            AgentCommitOutcome::NoChanges => CommitOutcomeView::NoChanges,
            AgentCommitOutcome::Conflict => CommitOutcomeView::Conflict,
            AgentCommitOutcome::Failed => CommitOutcomeView::Failed,
            AgentCommitOutcome::Cancelled => CommitOutcomeView::Cancelled,
            AgentCommitOutcome::ExitedUnverified { code } => CommitOutcomeView::ExitedUnverified {
                code: *code,
            },
        }
    }
}

impl AgentCommitOutcome {
    /// An equal copy of this outcome.
    pub fn duplicate(&self) -> (r: AgentCommitOutcome)
        ensures
            r@ == self@,
    {
        match self {
            AgentCommitOutcome::Committed { oid } => AgentCommitOutcome::Committed { oid: oid.clone() },
            AgentCommitOutcome::NoChanges => AgentCommitOutcome::NoChanges,
            AgentCommitOutcome::Conflict => AgentCommitOutcome::Conflict,
            AgentCommitOutcome::Failed => AgentCommitOutcome::Failed,
            AgentCommitOutcome::Cancelled => AgentCommitOutcome::Cancelled,
            AgentCommitOutcome::ExitedUnverified { code } => AgentCommitOutcome::ExitedUnverified {
                code: *code,
            },
        }
    }
}

pub open spec fn opt_commit_outcome_view(o: Option<AgentCommitOutcome>) -> Option<CommitOutcomeView> {
    match o {
        Some(x) => Some(x@),
        None => None,
    }
}

/// The classification rule for a probe taken after the Agent reports completion.
pub open spec fn spec_classify_probe(
    baseline_head: Option<Seq<char>>,
    head: Option<Seq<char>>,
    has_changes: bool,
    has_conflicts: bool,
) -> Option<CommitOutcomeView> {
    if baseline_head != head {
        match head {
            Some(oid) => Some(CommitOutcomeView::Committed { oid }),
            None => None,
        }
    } else if has_conflicts {
        Some(CommitOutcomeView::Conflict)
    } else if !has_changes {
        Some(CommitOutcomeView::NoChanges)
    } else {
        None
    }
}

/// Classify a probe after an Agent reports completion.
pub fn classify_probe(baseline: &AgentCommitProbe, probe: &AgentCommitProbe) -> (r: Option<AgentCommitOutcome>)
    ensures
        opt_commit_outcome_view(r) == spec_classify_probe(
            opt_view(baseline.head),
            opt_view(probe.head),
            probe.has_changes,
            probe.has_conflicts,
        ),
{
    if !opt_string_eq(&baseline.head, &probe.head) {
        return match &probe.head {
            Some(oid) => Some(AgentCommitOutcome::Committed { oid: oid.clone() }),
            None => None,
        };
    }
    if probe.has_conflicts {
        Some(AgentCommitOutcome::Conflict)
    } else if !probe.has_changes {
        Some(AgentCommitOutcome::NoChanges)
    } else {
        None
    }
}


/// A changed HEAD is the only proof of a commit: HEAD at a commit other
/// than the baseline is `Committed` at that commit whatever the working
/// tree shows, and `Committed { oid }` is reported only then.
pub proof fn law_commit_proved_by_changed_head(
    baseline_head: Option<Seq<char>>,
    head: Option<Seq<char>>,
    has_changes: bool,
    has_conflicts: bool,
)
    ensures
        forall|oid: Seq<char>|
            head == Some(oid) && baseline_head != head ==> #[trigger] spec_classify_probe(
                baseline_head,
                head,
                has_changes,
                has_conflicts,
            ) == Some(CommitOutcomeView::Committed { oid }),
        forall|oid: Seq<char>|
            #[trigger] spec_classify_probe(baseline_head, head, has_changes, has_conflicts) == Some(
                CommitOutcomeView::Committed { oid },
            ) ==> head == Some(oid) && baseline_head != head,
        baseline_head == head ==> !(spec_classify_probe(baseline_head, head, has_changes, has_conflicts) matches Some(
            CommitOutcomeView::Committed { .. },
        )),
{
}

} // verus!
