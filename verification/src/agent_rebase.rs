//! Rebase-specific Agent coordination and outcome classification.
//!
//! A branch rebase with a known upstream requires that upstream to be an
//! ancestor of the resulting HEAD. A pull --rebase recovery has no stable
//! target commit after its fetch, so it relies on the rebase state
//! disappearing, a clean tree, and a changed HEAD.
use vstd::prelude::*;
use crate::text::{opt_view, opt_str_view, opt_str_eq_string};

verus! {

/// Repository state sampled around a Rebase by AI session.
pub struct AgentRebaseProbe {
    pub head: Option<String>,
    pub rebase_head: Option<String>,
    pub rebase_in_progress: bool,
    pub has_changes: bool,
    pub has_conflicts: bool,
    pub target_is_ancestor_of_head: bool,
}

/// The kind of rebase work an interactive Agent session is allowed to do.
#[derive(Debug, PartialEq, Eq)]
pub enum AgentRebaseMode {
    /// Start a new rebase using the immutable upstream commit.
    Start { upstream_oid: String },
    /// Continue an existing rebase, such as one left by `pull --rebase`.
    Resolve { upstream_oid: Option<String>, rebase_head_oid: Option<String> },
}

impl AgentRebaseMode {
    /// The upstream the rebased HEAD must descend from, when one is known.
    pub open spec fn spec_upstream_oid(&self) -> Option<Seq<char>> {
        match self {
            AgentRebaseMode::Start { upstream_oid } => Some(upstream_oid@),
            AgentRebaseMode::Resolve { upstream_oid, .. } => opt_view(*upstream_oid),
        }
    }

    pub fn upstream_oid(&self) -> (r: Option<&str>)
        ensures
            opt_str_view(r) == self.spec_upstream_oid(),
    {
        match self {
            AgentRebaseMode::Start { upstream_oid } => Some(upstream_oid.as_str()),
            AgentRebaseMode::Resolve { upstream_oid, .. } => match upstream_oid {
                Some(oid) => Some(oid.as_str()),
                None => None,
            },
        }
    }
}

/// Result of a Rebase by AI session.
#[derive(Debug, PartialEq, Eq)]
pub enum AgentRebaseOutcome {
    Rebased { oid: String },
    AlreadyUpToDate,
    Conflict,
    Failed,
    Cancelled,
    ExitedUnverified { code: Option<i32> },
}

/// Mathematical form of a rebase outcome.
pub enum RebaseOutcomeView {
    Rebased { oid: Seq<char> },
    AlreadyUpToDate,
    Conflict,
    Failed,
    Cancelled,
    ExitedUnverified { code: Option<i32> },
}

impl View for AgentRebaseOutcome {
    type V = RebaseOutcomeView;

    open spec fn view(&self) -> RebaseOutcomeView {
        match self {
            AgentRebaseOutcome::Rebased { oid } => RebaseOutcomeView::Rebased { oid: oid@ },
            AgentRebaseOutcome::AlreadyUpToDate => RebaseOutcomeView::AlreadyUpToDate,
            AgentRebaseOutcome::Conflict => RebaseOutcomeView::Conflict,
            AgentRebaseOutcome::Failed => RebaseOutcomeView::Failed,
            AgentRebaseOutcome::Cancelled => RebaseOutcomeView::Cancelled,
            AgentRebaseOutcome::ExitedUnverified { code } => RebaseOutcomeView::ExitedUnverified {
                code: *code,
            },
        }
    }
}

pub open spec fn opt_rebase_outcome_view(o: Option<AgentRebaseOutcome>) -> Option<RebaseOutcomeView> {
    match o {
        Some(x) => Some(x@),
        None => None,
    }
}

/// The classification rule for a post-marker rebase probe.
pub open spec fn spec_classify_rebase(
    is_start: bool,
    has_upstream: bool,
    baseline_head: Option<Seq<char>>,
    head: Option<Seq<char>>,
    rebase_in_progress: bool,
    has_changes: bool,
    has_conflicts: bool,
    target_is_ancestor_of_head: bool,
) -> Option<RebaseOutcomeView> {
    if rebase_in_progress || has_conflicts {
        Some(RebaseOutcomeView::Conflict)
    } else if has_changes {
        None
    } else if has_upstream && !target_is_ancestor_of_head {
        None
    } else if baseline_head == head {
        if is_start {
            Some(RebaseOutcomeView::AlreadyUpToDate)
        } else {
            None
        }
    } else {
        match head {
            Some(oid) => Some(RebaseOutcomeView::Rebased { oid }),
            None => None,
        }
    }
}

/// Classify a post-marker probe without inspecting provider output.
pub fn classify_rebase_probe(
    mode: &AgentRebaseMode,
    baseline_head: Option<&str>,
    probe: &AgentRebaseProbe,
) -> (r: Option<AgentRebaseOutcome>)
    ensures
        opt_rebase_outcome_view(r) == spec_classify_rebase(
            mode is Start,
            mode.spec_upstream_oid() is Some,
            opt_str_view(baseline_head),
            opt_view(probe.head),
            probe.rebase_in_progress,
            probe.has_changes,
            probe.has_conflicts,
            probe.target_is_ancestor_of_head,
        ),
{
    if probe.rebase_in_progress || probe.has_conflicts {
        return Some(AgentRebaseOutcome::Conflict);
    }
    if probe.has_changes {
        return None;
    }
    if mode.upstream_oid().is_some() && !probe.target_is_ancestor_of_head {
        return None;
    }
    if opt_str_eq_string(baseline_head, &probe.head) {
        return match mode {
            AgentRebaseMode::Start { .. } => Some(AgentRebaseOutcome::AlreadyUpToDate),
            AgentRebaseMode::Resolve { .. } => None,
        };
    }
    match &probe.head {
        Some(oid) => Some(AgentRebaseOutcome::Rebased { oid: oid.clone() }),
        None => None,
    }
}


/// A changed HEAD proves a rebase in either mode: with no rebase in
/// progress, no conflict, a clean tree, the upstream (when one is known) an
/// ancestor of HEAD, and HEAD at a commit other than the baseline, the
/// session rebased onto that commit, whether it started the rebase or
/// resolved one.
pub proof fn law_changed_head_proves_rebase(
    is_start: bool,
    has_upstream: bool,
    baseline_head: Option<Seq<char>>,
    oid: Seq<char>,
)
    requires
        baseline_head != Some(oid),
    ensures
        spec_classify_rebase(is_start, has_upstream, baseline_head, Some(oid), false, false, false, true) == Some(
            RebaseOutcomeView::Rebased { oid },
        ),
{
}

/// The mode matters only when HEAD did not move.
pub proof fn law_rebase_mode_matters_only_for_unchanged_head(
    has_upstream: bool,
    baseline_head: Option<Seq<char>>,
    head: Option<Seq<char>>,
    rebase_in_progress: bool,
    has_changes: bool,
    has_conflicts: bool,
    target_is_ancestor_of_head: bool,
)
    requires
        baseline_head != head,
    ensures
        spec_classify_rebase(
            true,
            has_upstream,
            baseline_head,
            head,
            rebase_in_progress,
            has_changes,
            has_conflicts,
            target_is_ancestor_of_head,
        ) == spec_classify_rebase(
            false,
            has_upstream,
            baseline_head,
            head,
            rebase_in_progress,
            has_changes,
            has_conflicts,
            target_is_ancestor_of_head,
        ),
{
}

/// A rebase is reported only on proof: `Rebased { oid }` means HEAD is at
/// `oid`, moved from the baseline, on a clean tree with no rebase or
/// conflict left, and on top of the upstream when one is known.
pub proof fn law_rebased_only_on_proof(
    is_start: bool,
    has_upstream: bool,
    baseline_head: Option<Seq<char>>,
    head: Option<Seq<char>>,
    rebase_in_progress: bool,
    has_changes: bool,
    has_conflicts: bool,
    target_is_ancestor_of_head: bool,
    oid: Seq<char>,
)
    requires
        spec_classify_rebase(
            is_start,
            has_upstream,
            baseline_head,
            head,
            rebase_in_progress,
            has_changes,
            has_conflicts,
            target_is_ancestor_of_head,
        ) == Some(RebaseOutcomeView::Rebased { oid }),
    ensures
        head == Some(oid),
        baseline_head != head,
        !rebase_in_progress && !has_changes && !has_conflicts,
        has_upstream ==> target_is_ancestor_of_head,
{
}

} // verus!
