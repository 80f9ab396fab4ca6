//! Merge-specific Agent coordination and outcome classification.
//!
//! The target must be an ancestor of the resulting HEAD and the repository
//! must no longer be in a merge state. A changed HEAD proves a merge (or
//! fast-forward); an unchanged HEAD is only successful for a new merge that
//! was already up to date before the Agent started.
use vstd::prelude::*;
use crate::text::{opt_view, opt_str_view, opt_str_eq_string};

verus! {

/// Repository state sampled around a Merge by AI session.
pub struct AgentMergeProbe {
    pub head: Option<String>,
    pub merge_head: Option<String>,
    pub has_changes: bool,
    pub has_conflicts: bool,
    pub target_is_ancestor_of_head: bool,
}

/// The kind of merge work an interactive Agent session is allowed to do.
#[derive(Debug, PartialEq, Eq)]
pub enum AgentMergeMode {
    /// Start a new merge using the immutable target commit.
    Start { target_oid: String },
    /// Finish the merge represented by an existing `MERGE_HEAD`.
    Resolve { merge_head_oid: String },
}

impl AgentMergeMode {
    /// The commit the session merges: the start target or the existing
    /// `MERGE_HEAD`.
    pub open spec fn spec_target_oid(&self) -> Seq<char> {
        match self {
            AgentMergeMode::Start { target_oid } => target_oid@,
            AgentMergeMode::Resolve { merge_head_oid } => merge_head_oid@,
        }
    }

    pub fn target_oid(&self) -> (r: &str)
        ensures
            r@ == self.spec_target_oid(),
    {
        match self {
            AgentMergeMode::Start { target_oid } => target_oid.as_str(),
            AgentMergeMode::Resolve { merge_head_oid } => merge_head_oid.as_str(),
        }
    }
}

/// Result of a Merge by AI session.
#[derive(Debug, PartialEq, Eq)]
pub enum AgentMergeOutcome {
    Merged { oid: String },
    AlreadyUpToDate,
    Conflict,
    Failed,
    Cancelled,
    ExitedUnverified { code: Option<i32> },
}

/// Mathematical form of a merge outcome.
pub enum MergeOutcomeView {
    Merged { oid: Seq<char> },
    AlreadyUpToDate,
    Conflict,
    Failed,
    Cancelled,
    ExitedUnverified { code: Option<i32> },
}

impl View for AgentMergeOutcome {
    type V = MergeOutcomeView;

    open spec fn view(&self) -> MergeOutcomeView {
        match self {
            AgentMergeOutcome::Merged { oid } => MergeOutcomeView::Merged { oid: oid@ },
            AgentMergeOutcome::AlreadyUpToDate => MergeOutcomeView::AlreadyUpToDate,
            AgentMergeOutcome::Conflict => MergeOutcomeView::Conflict,
            AgentMergeOutcome::Failed => MergeOutcomeView::Failed,
            AgentMergeOutcome::Cancelled => MergeOutcomeView::Cancelled,
            AgentMergeOutcome::ExitedUnverified { code } => MergeOutcomeView::ExitedUnverified {
                code: *code,
            },
        }
    }
}

pub open spec fn opt_merge_outcome_view(o: Option<AgentMergeOutcome>) -> Option<MergeOutcomeView> {
    match o {
        Some(x) => Some(x@),
        None => None,
    }
}

/// The classification rule for a post-marker merge probe; `is_start` tells a
/// new merge from the resolution of an existing one.
pub open spec fn spec_classify_merge(
    is_start: bool,
    baseline_head: Option<Seq<char>>,
    head: Option<Seq<char>>,
    merge_head: Option<Seq<char>>,
    has_conflicts: bool,
    target_is_ancestor_of_head: bool,
) -> Option<MergeOutcomeView> {
    if has_conflicts || merge_head is Some {
        Some(MergeOutcomeView::Conflict)
    } else if !target_is_ancestor_of_head {
        None
    } else if baseline_head == head {
        if is_start {
            Some(MergeOutcomeView::AlreadyUpToDate)
        } else {
            None
        }
    } else {
        match head {
            Some(oid) => Some(MergeOutcomeView::Merged { oid }),
            None => None,
        }
    }
}

/// Classify a post-marker probe without inspecting provider output.
pub fn classify_merge_probe(
    mode: &AgentMergeMode,
    baseline_head: Option<&str>,
    probe: &AgentMergeProbe,
) -> (r: Option<AgentMergeOutcome>)
    ensures
        opt_merge_outcome_view(r) == spec_classify_merge(
            mode is Start,
            opt_str_view(baseline_head),
            opt_view(probe.head),
            opt_view(probe.merge_head),
            probe.has_conflicts,
            probe.target_is_ancestor_of_head,
        ),
{
    if probe.has_conflicts || probe.merge_head.is_some() {
        return Some(AgentMergeOutcome::Conflict);
    }
    if !probe.target_is_ancestor_of_head {
        return None;
    }
    if opt_str_eq_string(baseline_head, &probe.head) {
        return match mode {
            AgentMergeMode::Start { .. } => Some(AgentMergeOutcome::AlreadyUpToDate),
            AgentMergeMode::Resolve { .. } => None,
        };
    }
    match &probe.head {
        Some(oid) => Some(AgentMergeOutcome::Merged { oid: oid.clone() }),
        None => None,
    }
}


/// A changed HEAD proves a merge in either mode: with no conflicts and no
/// `MERGE_HEAD`, the target an ancestor of HEAD, and HEAD at a commit other
/// than the baseline, the session merged into that commit, whether it
/// started the merge or resolved one. The mode decides only the unchanged
/// HEAD.
pub proof fn law_changed_head_proves_merge(
    is_start: bool,
    baseline_head: Option<Seq<char>>,
    oid: Seq<char>,
)
    requires
        baseline_head != Some(oid),
    ensures
        spec_classify_merge(is_start, baseline_head, Some(oid), None, false, true) == Some(
            MergeOutcomeView::Merged { oid },
        ),
{
}

/// The mode matters only when HEAD did not move: for any probe whose HEAD
/// differs from the baseline, a new merge and a resolution classify alike.
pub proof fn law_merge_mode_matters_only_for_unchanged_head(
    baseline_head: Option<Seq<char>>,
    head: Option<Seq<char>>,
    merge_head: Option<Seq<char>>,
    has_conflicts: bool,
    target_is_ancestor_of_head: bool,
)
    requires
        baseline_head != head,
    ensures
        spec_classify_merge(true, baseline_head, head, merge_head, has_conflicts, target_is_ancestor_of_head)
            == spec_classify_merge(false, baseline_head, head, merge_head, has_conflicts, target_is_ancestor_of_head),
{
}

/// A merge is reported only on proof: `Merged { oid }` means HEAD is at
/// `oid`, moved from the baseline, with the target its ancestor and no
/// conflict or `MERGE_HEAD` left.
pub proof fn law_merged_only_on_proof(
    is_start: bool,
    baseline_head: Option<Seq<char>>,
    head: Option<Seq<char>>,
    merge_head: Option<Seq<char>>,
    has_conflicts: bool,
    target_is_ancestor_of_head: bool,
    oid: Seq<char>,
)
    requires
        spec_classify_merge(is_start, baseline_head, head, merge_head, has_conflicts, target_is_ancestor_of_head)
            == Some(MergeOutcomeView::Merged { oid }),
    ensures
        head == Some(oid),
        baseline_head != head,
        !has_conflicts,
        merge_head is None,
        target_is_ancestor_of_head,
{
}

} // verus!
