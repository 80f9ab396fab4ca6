//! How a repository tab reacts to results from its Git worker: which handler
//! a finished command goes to, which status line it shows, whether the
//! repository is re-read, and what a status snapshot says about the working
//! tree.
use vstd::prelude::*;
use crate::extension_actions::{StatusText, StatusView};
use crate::push_upstream::push_error_missing_upstream;
use crate::text::{contains_sub, first_line, owned, spec_first_line, str_eq, views};

verus! {

/// A working-tree operation.
#[derive(Clone, Copy, Debug, PartialEq, Eq, Structural)]
pub enum WorkingTreeAction {
    Stage,
    Unstage,
    Discard,
}

/// What a working-tree operation applies to.
#[derive(Clone, Copy, Debug, PartialEq, Eq, Structural)]
pub enum WorkingTreeScopeKind {
    File,
    All,
}

/// The message key describing a finished working-tree operation.
pub open spec fn spec_operation_result_key(action: WorkingTreeAction, scope: WorkingTreeScopeKind, success: bool) -> Seq<
    char,
> {
    if !success {
        "changes-operation-failed"@
    } else {
        match (action, scope) {
            (WorkingTreeAction::Stage, WorkingTreeScopeKind::File) => "changes-stage-success"@,
            (WorkingTreeAction::Stage, WorkingTreeScopeKind::All) => "changes-stage-all-success"@,
            (WorkingTreeAction::Unstage, WorkingTreeScopeKind::File) => "changes-unstage-success"@,
            (WorkingTreeAction::Unstage, WorkingTreeScopeKind::All) => "changes-unstage-all-success"@,
            (WorkingTreeAction::Discard, WorkingTreeScopeKind::File) => "changes-discard-success"@,
            (WorkingTreeAction::Discard, WorkingTreeScopeKind::All) => "changes-discard-all-success"@,
        }
    }
}

/// The message key describing a finished working-tree operation.
pub fn operation_result_key(action: WorkingTreeAction, scope: WorkingTreeScopeKind, success: bool) -> (r: &'static str)
    ensures
        r@ == spec_operation_result_key(action, scope, success),
{
    if !success {
        return "changes-operation-failed";
    }
    match (action, scope) {
        (WorkingTreeAction::Stage, WorkingTreeScopeKind::File) => "changes-stage-success",
        (WorkingTreeAction::Stage, WorkingTreeScopeKind::All) => "changes-stage-all-success",
        (WorkingTreeAction::Unstage, WorkingTreeScopeKind::File) => "changes-unstage-success",
        (WorkingTreeAction::Unstage, WorkingTreeScopeKind::All) => "changes-unstage-all-success",
        (WorkingTreeAction::Discard, WorkingTreeScopeKind::File) => "changes-discard-success",
        (WorkingTreeAction::Discard, WorkingTreeScopeKind::All) => "changes-discard-all-success",
    }
}

fn text_status(key: &str, args: Vec<(String, String)>) -> (r: StatusText)
    ensures
        r@ == (StatusView::Message {
            key: key@,
            args: args@.map_values(|a: (String, String)| (a.0@, a.1@)),
        }),
{
    StatusText::Message { key: owned(key), args }
}

/// The status line after a working-tree operation: its success message, or
/// the failure message with the first line of the worker's detail.
pub open spec fn spec_operation_status(
    action: WorkingTreeAction,
    scope: WorkingTreeScopeKind,
    success: bool,
    detail: Seq<char>,
) -> StatusView {
    if success {
        StatusView::Message { key: spec_operation_result_key(action, scope, true), args: seq![] }
    } else {
        StatusView::Message {
            key: "changes-operation-failed"@,
            args: seq![("error"@, spec_first_line(detail))],
        }
    }
}

/// The status line after a working-tree operation.
pub fn operation_status(action: WorkingTreeAction, scope: WorkingTreeScopeKind, success: bool, detail: &str) -> (r:
    StatusText)
    ensures
        r@ == spec_operation_status(action, scope, success, detail@),
{
    let mut args: Vec<(String, String)> = Vec::new();
    if success {
        assert(args@.map_values(|a: (String, String)| (a.0@, a.1@)) =~= Seq::<(Seq<char>, Seq<char>)>::empty());
        text_status(operation_result_key(action, scope, true), args)
    } else {
        args.push((owned("error"), owned(first_line(detail))));
        assert(args@.map_values(|a: (String, String)| (a.0@, a.1@)) =~= seq![("error"@, spec_first_line(detail@))]);
        text_status("changes-operation-failed", args)
    }
}

/// The next request number: one more, wrapping, but never 0 (0 means "no
/// request").
pub open spec fn spec_next_request_id(id: u64) -> u64 {
    if id == u64::MAX {
        1
    } else {
        (id + 1) as u64
    }
}

/// The next request number.
pub fn next_request_id(id: u64) -> (r: u64)
    ensures
        r == spec_next_request_id(id),
        r != 0,
{
    let next = id.wrapping_add(1);
    if next < 1 {
        1
    } else {
        next
    }
}

/// Labels of commands whose success changes the repository, so that the tab
/// re-reads it.
pub open spec fn spec_refreshes_after(label: Seq<char>) -> bool {
    ||| label == "commit"@
    ||| label == "checkout"@
    ||| label == "fetch --all --prune"@
    ||| label == "pull"@
    ||| label == "pull --rebase"@
    ||| label == "push"@
    ||| label == "push --force"@
    ||| label == "push --set-upstream"@
    ||| label == "push --rename"@
    ||| label == "push --delete"@
    ||| label == "switch"@
    ||| label == "branch -m"@
    ||| label == "branch -d"@
    ||| label == "branch -D"@
    ||| label == "tag -d"@
    ||| label == "stash"@
    ||| label == "stash pop"@
    ||| label == "stash drop"@
    ||| label == "merge"@
    ||| label == "merge --no-ff"@
    ||| label == "rebase"@
}

/// Whether a successful command with this label changes the repository.
pub fn refreshes_after(label: &str) -> (r: bool)
    ensures
        r == spec_refreshes_after(label@),
{
    str_eq(label, "commit") || str_eq(label, "checkout") || str_eq(label, "fetch --all --prune") || str_eq(
        label,
        "pull",
    ) || str_eq(label, "pull --rebase") || str_eq(label, "push") || str_eq(label, "push --force")
        || str_eq(label, "push --set-upstream") || str_eq(label, "push --rename") || str_eq(
        label,
        "push --delete",
    ) || str_eq(label, "switch") || str_eq(label, "branch -m") || str_eq(label, "branch -d") || str_eq(
        label,
        "branch -D",
    ) || str_eq(label, "tag -d") || str_eq(label, "stash") || str_eq(label, "stash pop") || str_eq(
        label,
        "stash drop",
    ) || str_eq(label, "merge") || str_eq(label, "merge --no-ff") || str_eq(label, "rebase")
}

/// Where a finished command's result goes.
pub enum CommandRoute {
    /// To the merge result handler.
    Merge,
    /// To the rebase result handler.
    Rebase,
    /// A plain push failed for lack of an upstream: offer to publish the
    /// branch (when the tab can) before reporting.
    OfferPushUpstream,
    /// The copied commit message arrived (or copying failed with this status).
    CopyCommitMessage { failure: Option<StatusText> },
    /// Report the result; re-read the repository when `refresh`.
    Report { status: StatusText, refresh: bool },
}

/// Mathematical form of a route.
pub enum RouteView {
    Merge,
    Rebase,
    OfferPushUpstream,
    CopyCommitMessage { failure: Option<StatusView> },
    Report { status: StatusView, refresh: bool },
}

impl View for CommandRoute {
    type V = RouteView;

    open spec fn view(&self) -> RouteView {
        match self {
            CommandRoute::Merge => RouteView::Merge,
            CommandRoute::Rebase => RouteView::Rebase,
            CommandRoute::OfferPushUpstream => RouteView::OfferPushUpstream,
            CommandRoute::CopyCommitMessage { failure } => RouteView::CopyCommitMessage {
                failure: match failure {
                    Some(s) => Some(s@),
                    None => None,
                },
            },
            CommandRoute::Report { status, refresh } => RouteView::Report { status: status@, refresh: *refresh },
        }
    }
}

pub open spec fn is_merge_label(label: Seq<char>) -> bool {
    label == "merge"@ || label == "merge --no-ff"@ || label == "merge --abort"@
}

pub open spec fn is_rebase_label(label: Seq<char>) -> bool {
    label == "rebase"@ || label == "pull --rebase"@ || label == "rebase --abort"@
}

/// Where the result of the command labelled `label` goes.
pub open spec fn spec_command_route(label: Seq<char>, success: bool, message: Seq<char>) -> RouteView {
    if is_merge_label(label) {
        RouteView::Merge
    } else if is_rebase_label(label) {
        RouteView::Rebase
    } else if !success && label == "push"@ && contains_sub(message, "has no upstream branch"@) {
        RouteView::OfferPushUpstream
    } else if label == "copy-commit-message"@ {
        RouteView::CopyCommitMessage {
            failure: if success {
                None
            } else {
                Some(
                    StatusView::Message {
                        key: "context-copy-commit-message-failed"@,
                        args: seq![("error"@, spec_first_line(message))],
                    },
                )
            },
        }
    } else {
        RouteView::Report {
            status: spec_command_status(label, success, message),
            refresh: success && spec_refreshes_after(label),
        }
    }
}

/// The status line reporting a finished command.
pub open spec fn spec_command_status(label: Seq<char>, success: bool, message: Seq<char>) -> StatusView {
    if success {
        StatusView::Message { key: "command-success"@, args: seq![("label"@, label)] }
    } else {
        StatusView::Message {
            key: "command-failed"@,
            args: seq![("label"@, label), ("error"@, spec_first_line(message))],
        }
    }
}

/// The status line reporting a finished command.
pub fn command_status(label: &str, success: bool, message: &str) -> (r: StatusText)
    ensures
        r@ == spec_command_status(label@, success, message@),
{
    let mut args: Vec<(String, String)> = Vec::new();
    args.push((owned("label"), owned(label)));
    if success {
        assert(args@.map_values(|a: (String, String)| (a.0@, a.1@)) =~= seq![("label"@, label@)]);
        text_status("command-success", args)
    } else {
        args.push((owned("error"), owned(first_line(message))));
        assert(args@.map_values(|a: (String, String)| (a.0@, a.1@)) =~= seq![
            ("label"@, label@),
            ("error"@, spec_first_line(message@)),
        ]);
        text_status("command-failed", args)
    }
}

/// Decide where the result of a finished command goes.
pub fn command_route(label: &str, success: bool, message: &str) -> (r: CommandRoute)
    ensures
        r@ == spec_command_route(label@, success, message@),
{
    if str_eq(label, "merge") || str_eq(label, "merge --no-ff") || str_eq(label, "merge --abort") {
        return CommandRoute::Merge;
    }
    if str_eq(label, "rebase") || str_eq(label, "pull --rebase") || str_eq(label, "rebase --abort") {
        return CommandRoute::Rebase;
    }
    if !success && str_eq(label, "push") && push_error_missing_upstream(message) {
        return CommandRoute::OfferPushUpstream;
    }
    if str_eq(label, "copy-commit-message") {
        if success {
            return CommandRoute::CopyCommitMessage { failure: None };
        }
        let mut args: Vec<(String, String)> = Vec::new();
        args.push((owned("error"), owned(first_line(message))));
        assert(args@.map_values(|a: (String, String)| (a.0@, a.1@)) =~= seq![("error"@, spec_first_line(message@))]);
        return CommandRoute::CopyCommitMessage {
            failure: Some(text_status("context-copy-commit-message-failed", args)),
        };
    }
    let refresh = success && refreshes_after(label);
    CommandRoute::Report { status: command_status(label, success, message), refresh }
}

/// The label under which a worker error is reported while a merge or a
/// rebase runs, or `None` when neither does.
pub open spec fn spec_error_label(
    merge_pending: Option<bool>,
    merge_abort_pending: bool,
    rebase_pending: Option<Seq<char>>,
    rebase_abort_pending: bool,
) -> Option<(bool, Seq<char>)> {
    if merge_pending is Some || merge_abort_pending {
        Some(
            (
                true,
                if merge_abort_pending {
                    "merge --abort"@
                } else if merge_pending == Some(true) {
                    "merge --no-ff"@
                } else {
                    "merge"@
                },
            ),
        )
    } else if rebase_pending is Some || rebase_abort_pending {
        Some(
            (
                false,
                if rebase_abort_pending {
                    "rebase --abort"@
                } else {
                    rebase_pending->0
                },
            ),
        )
    } else {
        None
    }
}

/// The label under which a worker error is reported while a merge (first
/// component `true`, with whether it is a no-fast-forward merge) or a rebase
/// (with its label) runs.
pub fn error_label(
    merge_pending: Option<bool>,
    merge_abort_pending: bool,
    rebase_pending: Option<&str>,
    rebase_abort_pending: bool,
) -> (r: Option<(bool, String)>)
    ensures
        match r {
            Some((m, l)) => spec_error_label(
                merge_pending,
                merge_abort_pending,
                crate::text::opt_str_view(rebase_pending),
                rebase_abort_pending,
            ) == Some((m, l@)),
            None => spec_error_label(
                merge_pending,
                merge_abort_pending,
                crate::text::opt_str_view(rebase_pending),
                rebase_abort_pending,
            ) is None,
        },
{
    if merge_pending.is_some() || merge_abort_pending {
        let label = if merge_abort_pending {
            owned("merge --abort")
        } else if merge_pending == Some(true) {
            owned("merge --no-ff")
        } else {
            owned("merge")
        };
        return Some((true, label));
    }
    if rebase_pending.is_some() || rebase_abort_pending {
        let label = if rebase_abort_pending {
            owned("rebase --abort")
        } else {
            match rebase_pending {
                Some(l) => owned(l),
                None => owned("rebase"),
            }
        };
        return Some((false, label));
    }
    None
}

/// One file of a status snapshot.
#[derive(Clone, Copy, Debug, PartialEq, Eq, Structural)]
pub struct FileState {
    pub staged: bool,
    pub worktree: bool,
    pub conflicted: bool,
}

/// One local branch of a status snapshot.
pub struct BranchInfo {
    pub name: String,
    pub is_head: bool,
}

pub open spec fn count_where(files: Seq<FileState>, pred: spec_fn(FileState) -> bool) -> nat
    decreases files.len(),
{
    if files.len() == 0 {
        0
    } else {
        count_where(files.drop_last(), pred) + if pred(files.last()) {
            1nat
        } else {
            0nat
        }
    }
}

pub open spec fn staged_file(f: FileState) -> bool {
    f.staged
}

pub open spec fn unstaged_file(f: FileState) -> bool {
    f.conflicted || f.worktree
}

pub open spec fn changed_file(f: FileState) -> bool {
    f.staged || f.worktree || f.conflicted
}

pub open spec fn conflicted_file(f: FileState) -> bool {
    f.conflicted
}

/// The names of the local branches other than the checked-out one.
pub open spec fn other_branches(bs: Seq<(Seq<char>, bool)>) -> Seq<Seq<char>>
    decreases bs.len(),
{
    if bs.len() == 0 {
        seq![]
    } else if bs.last().1 {
        other_branches(bs.drop_last())
    } else {
        other_branches(bs.drop_last()).push(bs.last().0)
    }
}

pub open spec fn branch_views(v: Seq<BranchInfo>) -> Seq<(Seq<char>, bool)> {
    v.map_values(|b: BranchInfo| (b.name@, b.is_head))
}

/// What a status snapshot says about the working tree.
pub struct StatusSummary {
    pub staged_count: usize,
    pub unstaged_count: usize,
    pub local_change_count: usize,
    pub has_staged: bool,
    /// The conflict guard: conflicted files now, or a guard kept from
    /// before until the merge state is probed clear.
    pub has_unresolved_conflicts: bool,
    /// Whether to probe the merge state again.
    pub probe_merge_state: bool,
    pub local_branches: Vec<String>,
}

/// Summarize a status snapshot. A conflict guard that was up stays up: a
/// resolved index may show no conflicted file while the merge still waits
/// for its commit, so only the merge-state probe lowers it.
pub fn status_summary(
    files: &Vec<FileState>,
    branches: &Vec<BranchInfo>,
    had_conflict_guard: bool,
    merge_probe_request_id: u64,
) -> (r: StatusSummary)
    ensures
        r.staged_count == count_where(files@, |f: FileState| staged_file(f)),
        r.unstaged_count == count_where(files@, |f: FileState| unstaged_file(f)),
        r.local_change_count == count_where(files@, |f: FileState| changed_file(f)),
        r.has_staged == (count_where(files@, |f: FileState| staged_file(f)) > 0),
        r.has_unresolved_conflicts == (count_where(files@, |f: FileState| conflicted_file(f)) > 0
            || had_conflict_guard),
        r.probe_merge_state == (count_where(files@, |f: FileState| conflicted_file(f)) > 0
            || had_conflict_guard || merge_probe_request_id == 0),
        views(r.local_branches@) == other_branches(branch_views(branches@)),
{
    let mut staged: usize = 0;
    let mut unstaged: usize = 0;
    let mut changed: usize = 0;
    let mut conflicted: usize = 0;
    for i in 0..files.len()
        invariant
            staged == count_where(files@.take(i as int), |f: FileState| staged_file(f)),
            unstaged == count_where(files@.take(i as int), |f: FileState| unstaged_file(f)),
            changed == count_where(files@.take(i as int), |f: FileState| changed_file(f)),
            conflicted == count_where(files@.take(i as int), |f: FileState| conflicted_file(f)),
            staged <= i,
            unstaged <= i,
            changed <= i,
            conflicted <= i,
    {
        let f = files[i];
        assert(files@.take(i + 1).drop_last() =~= files@.take(i as int));
        assert(files@.take(i + 1).last() == f);
        if f.staged {
            staged += 1;
        }
        if f.conflicted || f.worktree {
            unstaged += 1;
        }
        if f.staged || f.worktree || f.conflicted {
            changed += 1;
        }
        if f.conflicted {
            conflicted += 1;
        }
    }
    assert(files@.take(files@.len() as int) =~= files@);
    let ghost bv = branch_views(branches@);
    let mut locals: Vec<String> = Vec::new();
    for i in 0..branches.len()
        invariant
            bv == branch_views(branches@),
            views(locals@) == other_branches(bv.take(i as int)),
    {
        assert(bv.take(i + 1).drop_last() =~= bv.take(i as int));
        assert(bv.take(i + 1).last() == (branches@[i as int].name@, branches@[i as int].is_head));
        if !branches[i].is_head {
            let ghost before = views(locals@);
            locals.push(branches[i].name.clone());
            assert(views(locals@) =~= before.push(branches@[i as int].name@));
        }
    }
    assert(bv.take(branches@.len() as int) =~= bv);
    let guard = conflicted > 0 || had_conflict_guard;
    StatusSummary {
        staged_count: staged,
        unstaged_count: unstaged,
        local_change_count: changed,
        has_staged: staged > 0,
        has_unresolved_conflicts: guard,
        probe_merge_state: guard || merge_probe_request_id == 0,
        local_branches: locals,
    }
}

} // verus!
