//! The reply that an extension-started Agent session sends back to the
//! extension worker, derived from the session window's verified outcome.
use vstd::prelude::*;
use crate::agent_commit::{AgentCommitOutcome, CommitOutcomeView};
use crate::agent_merge::{AgentMergeOutcome, MergeOutcomeView};
use crate::agent_rebase::{AgentRebaseMode, AgentRebaseOutcome, RebaseOutcomeView};
use crate::agent_merge::AgentMergeMode;
use crate::agent_session::{SessionEntry, commit_key, count_selected, running_session_exists};
use crate::text::{decimal, opt_view, owned, push_decimal};

verus! {

/// Outcome of one extension-initiated Agent session, as reported to the
/// blocked extension worker.
#[derive(Debug, PartialEq, Eq)]
pub enum AgentSessionOutcome {
    /// The repository state confirmed the end of the operation.
    Confirmed { summary: String },
    /// The session ended without a confirmed result.
    Unconfirmed { exit_code: Option<i32>, summary: String },
    /// The session was stopped before it finished.
    Cancelled,
}

/// Mathematical form of a session outcome.
pub enum SessionOutcomeView {
    Confirmed { summary: Seq<char> },
    Unconfirmed { exit_code: Option<i32>, summary: Seq<char> },
    Cancelled,
}

impl View for AgentSessionOutcome {
    type V = SessionOutcomeView;

    open spec fn view(&self) -> SessionOutcomeView {
        match self {
            AgentSessionOutcome::Confirmed { summary } => SessionOutcomeView::Confirmed {
                summary: summary@,
            },
            AgentSessionOutcome::Unconfirmed { exit_code, summary } => SessionOutcomeView::Unconfirmed {
                exit_code: *exit_code,
                summary: summary@,
            },
            AgentSessionOutcome::Cancelled => SessionOutcomeView::Cancelled,
        }
    }
}

fn confirmed(summary: &str) -> (r: AgentSessionOutcome)
    ensures
        r@ == (SessionOutcomeView::Confirmed { summary: summary@ }),
{
    AgentSessionOutcome::Confirmed { summary: summary.to_owned() }
}

fn unconfirmed(exit_code: Option<i32>, summary: &str) -> (r: AgentSessionOutcome)
    ensures
        r@ == (SessionOutcomeView::Unconfirmed { exit_code, summary: summary@ }),
{
    AgentSessionOutcome::Unconfirmed { exit_code, summary: summary.to_owned() }
}

/// The protocol reply for a commit outcome.
pub open spec fn spec_commit_outcome(o: CommitOutcomeView) -> SessionOutcomeView {
    match o {
        CommitOutcomeView::Committed { .. } => SessionOutcomeView::Confirmed {
            summary: "the Agent reported the commit complete"@,
        },
        CommitOutcomeView::NoChanges => SessionOutcomeView::Confirmed {
            summary: "the working tree had no changes to commit"@,
        },
        CommitOutcomeView::Conflict => SessionOutcomeView::Confirmed {
            summary: "the commit ended with unresolved conflicts"@,
        },
        CommitOutcomeView::Failed => SessionOutcomeView::Unconfirmed {
            exit_code: None,
            summary: "the Agent did not complete the commit"@,
        },
        CommitOutcomeView::Cancelled => SessionOutcomeView::Cancelled,
        CommitOutcomeView::ExitedUnverified { code } => SessionOutcomeView::Unconfirmed {
            exit_code: code,
            summary: "the Agent exited without the completion marker"@,
        },
    }
}

/// Map a window commit outcome onto the extension session protocol.
pub fn commit_outcome(outcome: &AgentCommitOutcome) -> (r: AgentSessionOutcome)
    ensures
        r@ == spec_commit_outcome(outcome@),
{
    match outcome {
        AgentCommitOutcome::Committed { .. } => confirmed("the Agent reported the commit complete"),
        AgentCommitOutcome::NoChanges => confirmed("the working tree had no changes to commit"),
        AgentCommitOutcome::Conflict => confirmed("the commit ended with unresolved conflicts"),
        AgentCommitOutcome::Failed => unconfirmed(None, "the Agent did not complete the commit"),
        AgentCommitOutcome::Cancelled => AgentSessionOutcome::Cancelled,
        AgentCommitOutcome::ExitedUnverified { code } => unconfirmed(
            *code,
            "the Agent exited without the completion marker",
        ),
    }
}

/// The protocol reply for a merge outcome.
pub open spec fn spec_merge_outcome(o: MergeOutcomeView) -> SessionOutcomeView {
    match o {
        MergeOutcomeView::Merged { .. } | MergeOutcomeView::AlreadyUpToDate => SessionOutcomeView::Confirmed {
            summary: "the Agent reported the merge complete"@,
        },
        MergeOutcomeView::Conflict => SessionOutcomeView::Confirmed {
            summary: "the merge ended with unresolved conflicts"@,
        },
        MergeOutcomeView::Failed => SessionOutcomeView::Unconfirmed {
            exit_code: None,
            summary: "the Agent did not complete the merge"@,
        },
        MergeOutcomeView::Cancelled => SessionOutcomeView::Cancelled,
        MergeOutcomeView::ExitedUnverified { code } => SessionOutcomeView::Unconfirmed {
            exit_code: code,
            summary: "the Agent exited without the completion marker"@,
        },
    }
}

/// Map a window merge outcome onto the extension session protocol.
pub fn merge_outcome(outcome: &AgentMergeOutcome) -> (r: AgentSessionOutcome)
    ensures
        r@ == spec_merge_outcome(outcome@),
{
    match outcome {
        AgentMergeOutcome::Merged { .. } | AgentMergeOutcome::AlreadyUpToDate => confirmed(
            "the Agent reported the merge complete",
        ),
        AgentMergeOutcome::Conflict => confirmed("the merge ended with unresolved conflicts"),
        AgentMergeOutcome::Failed => unconfirmed(None, "the Agent did not complete the merge"),
        AgentMergeOutcome::Cancelled => AgentSessionOutcome::Cancelled,
        AgentMergeOutcome::ExitedUnverified { code } => unconfirmed(
            *code,
            "the Agent exited without the completion marker",
        ),
    }
}

/// The protocol reply for a rebase outcome.
pub open spec fn spec_rebase_outcome(o: RebaseOutcomeView) -> SessionOutcomeView {
    match o {
        RebaseOutcomeView::Rebased { .. } | RebaseOutcomeView::AlreadyUpToDate => SessionOutcomeView::Confirmed {
            summary: "the Agent reported the rebase complete"@,
        },
        RebaseOutcomeView::Conflict => SessionOutcomeView::Confirmed {
            summary: "the rebase ended with unresolved conflicts"@,
        },
        RebaseOutcomeView::Failed => SessionOutcomeView::Unconfirmed {
            exit_code: None,
            summary: "the Agent did not complete the rebase"@,
        },
        RebaseOutcomeView::Cancelled => SessionOutcomeView::Cancelled,
        RebaseOutcomeView::ExitedUnverified { code } => SessionOutcomeView::Unconfirmed {
            exit_code: code,
            summary: "the Agent exited without the completion marker"@,
        },
    }
}

/// Map a window rebase outcome onto the extension session protocol.
pub fn rebase_outcome(outcome: &AgentRebaseOutcome) -> (r: AgentSessionOutcome)
    ensures
        r@ == spec_rebase_outcome(outcome@),
{
    match outcome {
        AgentRebaseOutcome::Rebased { .. } | AgentRebaseOutcome::AlreadyUpToDate => confirmed(
            "the Agent reported the rebase complete",
        ),
        AgentRebaseOutcome::Conflict => confirmed("the rebase ended with unresolved conflicts"),
        AgentRebaseOutcome::Failed => unconfirmed(None, "the Agent did not complete the rebase"),
        AgentRebaseOutcome::Cancelled => AgentSessionOutcome::Cancelled,
        AgentRebaseOutcome::ExitedUnverified { code } => unconfirmed(
            *code,
            "the Agent exited without the completion marker",
        ),
    }
}


/// What kind of reply a session gets, and the exit code it carries.
pub open spec fn reply_shape(s: SessionOutcomeView) -> (int, Option<i32>) {
    match s {
        SessionOutcomeView::Confirmed { .. } => (0, None),
        SessionOutcomeView::Unconfirmed { exit_code, .. } => (1, exit_code),
        SessionOutcomeView::Cancelled => (2, None),
    }
}

/// The rebase outcome of the same kind as a merge outcome.
pub open spec fn rebase_counterpart(m: MergeOutcomeView) -> RebaseOutcomeView {
    match m {
        MergeOutcomeView::Merged { oid } => RebaseOutcomeView::Rebased { oid },
        MergeOutcomeView::AlreadyUpToDate => RebaseOutcomeView::AlreadyUpToDate,
        MergeOutcomeView::Conflict => RebaseOutcomeView::Conflict,
        MergeOutcomeView::Failed => RebaseOutcomeView::Failed,
        MergeOutcomeView::Cancelled => RebaseOutcomeView::Cancelled,
        MergeOutcomeView::ExitedUnverified { code } => RebaseOutcomeView::ExitedUnverified { code },
    }
}

/// A verified result is confirmed to the extension: a merge or rebase
/// proved by a changed HEAD gets the same confirmation as one that found
/// nothing to do, and a proved commit is confirmed.
pub proof fn law_verified_results_are_confirmed(oid: Seq<char>)
    ensures
        spec_merge_outcome(MergeOutcomeView::Merged { oid }) is Confirmed,
        spec_merge_outcome(MergeOutcomeView::Merged { oid }) == spec_merge_outcome(
            MergeOutcomeView::AlreadyUpToDate,
        ),
        spec_rebase_outcome(RebaseOutcomeView::Rebased { oid }) is Confirmed,
        spec_rebase_outcome(RebaseOutcomeView::Rebased { oid }) == spec_rebase_outcome(
            RebaseOutcomeView::AlreadyUpToDate,
        ),
        spec_commit_outcome(CommitOutcomeView::Committed { oid }) is Confirmed,
{
}

/// Merge and rebase sessions reply alike: outcomes of the same kind get
/// replies of the same kind, with the same exit code.
pub proof fn law_merge_and_rebase_replies_agree(m: MergeOutcomeView)
    ensures
        reply_shape(spec_merge_outcome(m)) == reply_shape(spec_rebase_outcome(rebase_counterpart(m))),
{
}

/// What each reply means: a session is confirmed exactly when the
/// repository showed an end state (done, nothing to do, or a conflict),
/// cancelled exactly when it was stopped, and otherwise unconfirmed,
/// carrying the Agent's exit code when it exited without the marker.
pub proof fn law_reply_kinds(m: MergeOutcomeView, r: RebaseOutcomeView)
    ensures
        (spec_merge_outcome(m) is Confirmed) == (m is Merged || m is AlreadyUpToDate || m is Conflict),
        (spec_merge_outcome(m) is Cancelled) == (m is Cancelled),
        (spec_rebase_outcome(r) is Confirmed) == (r is Rebased || r is AlreadyUpToDate || r is Conflict),
        (spec_rebase_outcome(r) is Cancelled) == (r is Cancelled),
        r matches RebaseOutcomeView::ExitedUnverified { code } ==> reply_shape(spec_rebase_outcome(r)) == (
        1int, code),
        m matches MergeOutcomeView::ExitedUnverified { code } ==> reply_shape(spec_merge_outcome(m)) == (1int, code),
{
}

/// A repository operation an extension asks an Agent to carry out.
pub enum RepositoryOperation {
    Commit,
    Merge { target_oid: String },
    ResolveMerge { merge_head_oid: String },
    Rebase { upstream_oid: String },
    ResolveRebase { rebase_head_oid: Option<String>, upstream_oid: Option<String> },
}

/// What an extension asks an Agent session for.
pub enum SessionOperation {
    /// A repository operation, with a hint for the commit message.
    Repository { operation: RepositoryOperation, hint: Option<String> },
    /// A free prompt.
    Prompt { prompt: String },
}

/// The session to start for an accepted request; repository sessions are
/// registered under the repository's commit key.
pub enum SessionPlan {
    Commit { key: String, path: String, hint: Option<String> },
    Merge { key: String, path: String, mode: AgentMergeMode },
    Rebase { key: String, path: String, mode: AgentRebaseMode },
    Prompt { path: Option<String>, prompt: String },
}

/// Decide an extension's request for an Agent session with the default
/// profile `profile_id` (`profile_available`: whether it resolves), on the
/// repository at `repository_path`, while `entries` are open. Refused when
/// the profile is unavailable, when a repository operation names no
/// repository, or when a session is already running for the repository.
pub fn session_plan(
    profile_id: &str,
    profile_available: bool,
    operation: SessionOperation,
    repository_path: Option<String>,
    entries: &Vec<SessionEntry>,
) -> (r: Result<SessionPlan, String>)
    ensures
        !profile_available ==> (r matches Err(e) && e@ == "configured Agent profile is unavailable: "@ + profile_id@),
        profile_available ==> match operation {
            SessionOperation::Prompt { prompt } => r matches Ok(SessionPlan::Prompt { path, prompt: p })
                && opt_view(path) == opt_view(repository_path) && p@ == prompt@,
            SessionOperation::Repository { operation: op, hint } => match repository_path {
                None => r matches Err(e) && e@ == "a repository Agent operation requires a repository"@,
                Some(path) => if count_selected(entries@, Some("commit:"@ + path@)) > 0 {
                    r matches Err(e) && e@ == "an Agent session is already active for this repository"@
                } else {
                    match op {
                        RepositoryOperation::Commit => r matches Ok(SessionPlan::Commit { key, path: p, hint: h })
                            && key@ == "commit:"@ + path@ && p@ == path@ && opt_view(h) == opt_view(hint),
                        RepositoryOperation::Merge { target_oid } => r matches Ok(
                            SessionPlan::Merge { key, path: p, mode: AgentMergeMode::Start { target_oid: t } },
                        ) && key@ == "commit:"@ + path@ && p@ == path@ && t@ == target_oid@,
                        RepositoryOperation::ResolveMerge { merge_head_oid } => r matches Ok(
                            SessionPlan::Merge { key, path: p, mode: AgentMergeMode::Resolve { merge_head_oid: m } },
                        ) && key@ == "commit:"@ + path@ && p@ == path@ && m@ == merge_head_oid@,
                        RepositoryOperation::Rebase { upstream_oid } => r matches Ok(
                            SessionPlan::Rebase { key, path: p, mode: AgentRebaseMode::Start { upstream_oid: u } },
                        ) && key@ == "commit:"@ + path@ && p@ == path@ && u@ == upstream_oid@,
                        RepositoryOperation::ResolveRebase { rebase_head_oid, upstream_oid } => r matches Ok(
                            SessionPlan::Rebase {
                                key,
                                path: p,
                                mode: AgentRebaseMode::Resolve { upstream_oid: u, rebase_head_oid: h },
                            },
                        ) && key@ == "commit:"@ + path@ && p@ == path@ && opt_view(u) == opt_view(upstream_oid)
                            && opt_view(h) == opt_view(rebase_head_oid),
                    }
                },
            },
        },
{
    if !profile_available {
        let mut e = owned("configured Agent profile is unavailable: ");
        e.append(profile_id);
        return Err(e);
    }
    match operation {
        SessionOperation::Prompt { prompt } => Ok(SessionPlan::Prompt { path: repository_path, prompt }),
        SessionOperation::Repository { operation, hint } => {
            let path = match repository_path {
                None => {
                    return Err(owned("a repository Agent operation requires a repository"));
                },
                Some(p) => p,
            };
            let key = commit_key(path.as_str());
            if running_session_exists(entries, key.as_str()) {
                return Err(owned("an Agent session is already active for this repository"));
            }
            match operation {
                RepositoryOperation::Commit => Ok(SessionPlan::Commit { key, path, hint }),
                RepositoryOperation::Merge { target_oid } => Ok(
                    SessionPlan::Merge { key, path, mode: AgentMergeMode::Start { target_oid } },
                ),
                RepositoryOperation::ResolveMerge { merge_head_oid } => Ok(
                    SessionPlan::Merge { key, path, mode: AgentMergeMode::Resolve { merge_head_oid } },
                ),
                RepositoryOperation::Rebase { upstream_oid } => Ok(
                    SessionPlan::Rebase { key, path, mode: AgentRebaseMode::Start { upstream_oid } },
                ),
                RepositoryOperation::ResolveRebase { rebase_head_oid, upstream_oid } => Ok(
                    SessionPlan::Rebase { key, path, mode: AgentRebaseMode::Resolve { upstream_oid, rebase_head_oid } },
                ),
            }
        },
    }
}


/// Where a free-prompt session runs: in the repository when one was named,
/// else in the user's home directory when it is known, else here (`.`).
pub open spec fn spec_prompt_working_directory(repository_path: Option<Seq<char>>, home: Option<Seq<char>>) -> Seq<
    char,
> {
    match repository_path {
        Some(p) => p,
        None => match home {
            Some(h) => h,
            None => seq!['.'],
        },
    }
}

/// The working directory of a free-prompt session.
pub fn prompt_working_directory(repository_path: Option<String>, home: Option<String>) -> (r: String)
    ensures
        r@ == spec_prompt_working_directory(opt_view(repository_path), opt_view(home)),
{
    match repository_path {
        Some(p) => p,
        None => match home {
            Some(h) => h,
            None => {
                proof {
                    reveal_strlit(".");
                }
                owned(".")
            },
        },
    }
}

/// The prompt a free-prompt session sends: the extension's prompt, a blank
/// line, then the completion challenge.
pub fn prompt_with_challenge(prompt: &str, challenge: &str) -> (r: String)
    ensures
        r@ == prompt@ + "\n\n"@ + challenge@,
{
    let mut s = owned(prompt);
    s.append("\n\n");
    s.append(challenge);
    s
}

/// The key under which free-prompt session `session_id` is registered.
pub fn prompt_session_key(session_id: u64) -> (r: String)
    ensures
        r@ == "extension-prompt:"@ + decimal(session_id as nat),
{
    let mut s = owned("extension-prompt:");
    push_decimal(&mut s, session_id);
    s
}

} // verus!
