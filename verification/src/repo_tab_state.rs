//! The decision state of a repository tab: when it re-reads the repository,
//! how its busy flag gates operations, which request results are current,
//! which history scope the commit graph shows, what its tab header says, and
//! what a toolbar button does.
use vstd::prelude::*;
use crate::push_upstream::{push_upstream_offer, spec_push_upstream_offer};
use crate::repo_events::{next_request_id, spec_next_request_id, spec_command_route, spec_refreshes_after, RouteView};
use crate::tabs::TabId;
use crate::branch_dialog::{DialogView, DialogsView, ContextView, PendingBranchDialog, spec_confirm};
use crate::text::{chars_of, opt_string_clone, opt_string_eq, opt_view, owned, views};

verus! {

/// How soon after one Agent-triggered refresh another may run.
pub const AGENT_REFRESH_THROTTLE_MS: u64 = 250;

/// The commit history the graph shows.
#[derive(Clone, Copy, Debug, PartialEq, Eq, Structural)]
pub enum GraphHistoryPreference {
    AllBranches,
    CurrentBranch,
}

/// The history scope sent to the Git worker.
pub enum LogScope {
    AllBranches,
    CurrentBranch { upstream: Option<String> },
}

/// Mathematical form of a scope.
pub enum ScopeView {
    AllBranches,
    CurrentBranch { upstream: Option<Seq<char>> },
}

impl View for LogScope {
    type V = ScopeView;

    open spec fn view(&self) -> ScopeView {
        match self {
            LogScope::AllBranches => ScopeView::AllBranches,
            LogScope::CurrentBranch { upstream } => ScopeView::CurrentBranch { upstream: opt_view(*upstream) },
        }
    }
}

pub open spec fn opt_scope_view(o: Option<LogScope>) -> Option<ScopeView> {
    match o {
        Some(s) => Some(s@),
        None => None,
    }
}

/// The decision state of one repository tab.
pub struct RepoTabState {
    /// Whether the repository finished opening.
    pub opened: bool,
    pub operation_busy: bool,
    /// An Agent asked for a refresh while the tab was busy.
    pub agent_refresh_pending: bool,
    pub last_agent_refresh_ms: Option<u64>,
    pub working_tree_operation_id: u64,
    pub working_diff_request_id: u64,
    /// The scope last sent to the worker.
    pub log_scope: Option<LogScope>,
}

/// What changing the busy flag asks of the application.
#[derive(Clone, Copy, Debug, PartialEq, Eq, Structural)]
pub enum BusyChange {
    /// The flag already had that value.
    Unchanged,
    /// Tell the panels; re-read the repository when `refresh`.
    Changed { refresh: bool },
}

impl RepoTabState {
    /// A tab that is still opening.
    pub fn new() -> (r: RepoTabState)
        ensures
            !r.opened,
            !r.operation_busy,
            !r.agent_refresh_pending,
            r.last_agent_refresh_ms is None,
            r.working_tree_operation_id == 0,
            r.working_diff_request_id == 0,
            r.log_scope is None,
    {
        RepoTabState {
            opened: false,
            operation_busy: false,
            agent_refresh_pending: false,
            last_agent_refresh_ms: None,
            working_tree_operation_id: 0,
            working_diff_request_id: 0,
            log_scope: None,
        }
    }

    /// Whether the tab may re-read its repository now (after focus, a tab
    /// switch or an Agent): only once opened and while not busy.
    pub fn refresh_if_ready(&self) -> (r: bool)
        ensures
            r == (self.opened && !self.operation_busy),
    {
        self.opened && !self.operation_busy
    }

    /// An Agent session asks for a refresh at `now_ms`. Requests closer than
    /// the throttle to the last one are dropped; a busy tab refreshes once
    /// it is idle again. Whether to refresh now.
    pub fn request_agent_refresh(&mut self, now_ms: u64) -> (r: bool)
        ensures
            ({
                let throttled = match old(self).last_agent_refresh_ms {
                    Some(last) => now_ms < last + AGENT_REFRESH_THROTTLE_MS,
                    None => false,
                };
                if throttled {
                    !r && final(self).agent_refresh_pending == old(self).agent_refresh_pending
                        && final(self).last_agent_refresh_ms == old(self).last_agent_refresh_ms
                } else {
                    &&& r == (old(self).opened && !old(self).operation_busy)
                    &&& final(self).last_agent_refresh_ms == Some(now_ms)
                    &&& final(self).agent_refresh_pending == (old(self).agent_refresh_pending || !r)
                }
            }),
            final(self).opened == old(self).opened,
            final(self).operation_busy == old(self).operation_busy,
            final(self).working_tree_operation_id == old(self).working_tree_operation_id,
            final(self).working_diff_request_id == old(self).working_diff_request_id,
    {
        match self.last_agent_refresh_ms {
            Some(last) => {
                if now_ms.saturating_sub(last) < AGENT_REFRESH_THROTTLE_MS {
                    return false;
                }
            },
            None => {},
        }
        self.last_agent_refresh_ms = Some(now_ms);
        if self.refresh_if_ready() {
            true
        } else {
            self.agent_refresh_pending = true;
            false
        }
    }

    /// Set the busy flag; an Agent refresh that waited for the tab to become
    /// idle runs now.
    pub fn set_operation_busy(&mut self, busy: bool) -> (r: BusyChange)
        ensures
            old(self).operation_busy == busy ==> r == BusyChange::Unchanged && final(self).agent_refresh_pending
                == old(self).agent_refresh_pending,
            old(self).operation_busy != busy ==> r == (BusyChange::Changed {
                refresh: !busy && old(self).agent_refresh_pending,
            }) && final(self).agent_refresh_pending == (old(self).agent_refresh_pending && busy),
            final(self).operation_busy == busy,
            final(self).opened == old(self).opened,
            final(self).last_agent_refresh_ms == old(self).last_agent_refresh_ms,
            final(self).working_tree_operation_id == old(self).working_tree_operation_id,
            final(self).working_diff_request_id == old(self).working_diff_request_id,
    {
        if self.operation_busy == busy {
            return BusyChange::Unchanged;
        }
        self.operation_busy = busy;
        let refresh = !busy && self.agent_refresh_pending;
        if refresh {
            self.agent_refresh_pending = false;
        }
        BusyChange::Changed { refresh }
    }

    /// Start a working-tree operation: refused while busy; otherwise the tab
    /// becomes busy and the operation gets the next request number.
    pub fn start_working_tree_operation(&mut self) -> (r: Option<u64>)
        ensures
            old(self).operation_busy ==> r is None && final(self).working_tree_operation_id
                == old(self).working_tree_operation_id && final(self).operation_busy,
            !old(self).operation_busy ==> r == Some(spec_next_request_id(old(self).working_tree_operation_id))
                && final(self).working_tree_operation_id == spec_next_request_id(
                old(self).working_tree_operation_id,
            ) && final(self).operation_busy,
            final(self).opened == old(self).opened,
            final(self).working_diff_request_id == old(self).working_diff_request_id,
            final(self).agent_refresh_pending == old(self).agent_refresh_pending,
    {
        if self.operation_busy {
            return None;
        }
        self.working_tree_operation_id = next_request_id(self.working_tree_operation_id);
        let id = self.working_tree_operation_id;
        self.operation_busy = true;
        Some(id)
    }

    /// Whether a working-tree result answers the latest request (older ones
    /// are ignored).
    pub fn is_current_operation(&self, request_id: u64) -> (r: bool)
        ensures
            r == (request_id == self.working_tree_operation_id),
    {
        request_id == self.working_tree_operation_id
    }

    /// The request number for a newly selected file's diff.
    pub fn next_working_diff_request(&mut self) -> (r: u64)
        ensures
            r == spec_next_request_id(old(self).working_diff_request_id),
            final(self).working_diff_request_id == r,
            final(self).working_tree_operation_id == old(self).working_tree_operation_id,
            final(self).operation_busy == old(self).operation_busy,
    {
        self.working_diff_request_id = next_request_id(self.working_diff_request_id);
        self.working_diff_request_id
    }

    /// Bring the graph's history scope in line with the preference; the
    /// scope to send to the worker, if it changed. The worker starts on all
    /// branches, so that first scope needs no message.
    pub fn sync_log_scope(&mut self, preference: GraphHistoryPreference, upstream: &Option<String>) -> (r: Option<
        LogScope,
    >)
        ensures
            ({
                let want = match preference {
                    GraphHistoryPreference::AllBranches => ScopeView::AllBranches,
                    GraphHistoryPreference::CurrentBranch => ScopeView::CurrentBranch { upstream: opt_view(*upstream) },
                };
                &&& opt_scope_view(final(self).log_scope) == Some(want)
                &&& if opt_scope_view(old(self).log_scope) == Some(want) {
                    r is None
                } else if old(self).log_scope is None && want == ScopeView::AllBranches {
                    r is None
                } else {
                    opt_scope_view(r) == Some(want)
                }
            }),
            final(self).operation_busy == old(self).operation_busy,
            final(self).opened == old(self).opened,
    {
        let same = match (&self.log_scope, preference) {
            (Some(LogScope::AllBranches), GraphHistoryPreference::AllBranches) => true,
            (Some(LogScope::CurrentBranch { upstream: u }), GraphHistoryPreference::CurrentBranch) => opt_string_eq(
                u,
                upstream,
            ),
            _ => false,
        };
        if same {
            return None;
        }
        let first = self.log_scope.is_none();
        match preference {
            GraphHistoryPreference::AllBranches => {
                self.log_scope = Some(LogScope::AllBranches);
                if first {
                    None
                } else {
                    Some(LogScope::AllBranches)
                }
            },
            GraphHistoryPreference::CurrentBranch => {
                self.log_scope = Some(LogScope::CurrentBranch { upstream: opt_string_clone(upstream) });
                Some(LogScope::CurrentBranch { upstream: opt_string_clone(upstream) })
            },
        }
    }
}

/// What the tab header shows about the repository's state.
#[derive(Clone, Copy, Debug, PartialEq, Eq, Structural)]
pub enum TabState {
    Loading,
    Ready,
    Error,
}

/// The worker's status, by kind.
#[derive(Clone, Copy, Debug, PartialEq, Eq, Structural)]
pub enum GitStatusKind {
    Idle,
    Scanning,
    Ready,
    Error,
}

/// The header of a repository tab.
pub struct TabSummary {
    pub id: TabId,
    pub title: String,
    pub branch: Option<String>,
    pub state: TabState,
}

pub open spec fn is_separator(c: char) -> bool {
    c == '/' || c == '\\'
}

/// A path without trailing separators.
pub open spec fn trim_separators(s: Seq<char>) -> Seq<char>
    decreases s.len(),
{
    if s.len() > 0 && is_separator(s.last()) {
        trim_separators(s.drop_last())
    } else {
        s
    }
}

/// The last component of a path: the text after its last separator.
pub open spec fn last_component(s: Seq<char>) -> Seq<char>
    decreases s.len(),
{
    if s.len() == 0 {
        s
    } else if is_separator(s.last()) {
        Seq::empty()
    } else {
        last_component(s.drop_last()).push(s.last())
    }
}

/// The title of a repository tab: the repository directory's name, or the
/// path itself when it is nothing but separators.
pub open spec fn spec_repo_title(path: Seq<char>) -> Seq<char> {
    let trimmed = trim_separators(path);
    if trimmed.len() == 0 {
        path
    } else {
        last_component(trimmed)
    }
}

/// The title of a repository tab.
pub fn repo_title(path: &str) -> (r: String)
    ensures
        r@ == spec_repo_title(path@),
{
    let chars = chars_of(path);
    let mut end: usize = chars.len();
    assert(path@.subrange(0, end as int) =~= path@);
    while end > 0 && (chars[end - 1] == '/' || chars[end - 1] == '\\')
        invariant
            chars@ == path@,
            end <= chars@.len(),
            trim_separators(path@) == trim_separators(path@.subrange(0, end as int)),
        decreases end,
    {
        assert(path@.subrange(0, end as int).drop_last() =~= path@.subrange(0, end - 1));
        end -= 1;
    }
    if end == 0 {
        return owned(path);
    }
    let ghost trimmed = path@.subrange(0, end as int);
    assert(trim_separators(path@) == trimmed);
    let mut start: usize = end;
    assert(trimmed.subrange(end as int, end as int) =~= Seq::<char>::empty());
    while start > 0 && !(chars[start - 1] == '/' || chars[start - 1] == '\\')
        invariant
            chars@ == path@,
            start <= end,
            end <= chars@.len(),
            trimmed == path@.subrange(0, end as int),
            last_component(trimmed) == last_component(path@.subrange(0, start as int)) + path@.subrange(
                start as int,
                end as int,
            ),
        decreases start,
    {
        let ghost pre = path@.subrange(0, start as int);
        assert(pre.drop_last() =~= path@.subrange(0, start - 1));
        assert(pre.last() == path@[start - 1]);
        assert(last_component(pre) == last_component(path@.subrange(0, start - 1)).push(path@[start - 1]));
        assert(last_component(path@.subrange(0, start - 1)).push(path@[start - 1]) + path@.subrange(
            start as int,
            end as int,
        ) =~= last_component(path@.subrange(0, start - 1)) + path@.subrange(start - 1, end as int));
        start -= 1;
    }
    if start > 0 {
        let ghost pre = path@.subrange(0, start as int);
        assert(pre.last() == path@[start - 1]);
        assert(last_component(pre) =~= Seq::<char>::empty());
    } else {
        assert(path@.subrange(0, 0) =~= Seq::<char>::empty());
    }
    assert(last_component(trimmed) =~= path@.subrange(start as int, end as int));
    owned(path.substring_char(start, end))
}

/// The header of a repository tab.
pub fn summary(id: TabId, repo_path: &str, branch: &str, status: GitStatusKind) -> (r: TabSummary)
    ensures
        r.id == id,
        r.title@ == spec_repo_title(repo_path@),
        opt_view(r.branch) == if branch@.len() == 0 {
            None
        } else {
            Some(branch@)
        },
        r.state == match status {
            GitStatusKind::Error => TabState::Error,
            GitStatusKind::Ready => TabState::Ready,
            _ => TabState::Loading,
        },
{
    let state = match status {
        GitStatusKind::Error => TabState::Error,
        GitStatusKind::Ready => TabState::Ready,
        _ => TabState::Loading,
    };
    TabSummary {
        id,
        title: repo_title(repo_path),
        branch: if branch.unicode_len() == 0 {
            None
        } else {
            Some(owned(branch))
        },
        state,
    }
}

/// Mathematical form of a tab header.
pub struct SummaryView {
    pub id: TabId,
    pub title: Seq<char>,
    pub branch: Option<Seq<char>>,
    pub state: TabState,
}

impl View for TabSummary {
    type V = SummaryView;

    open spec fn view(&self) -> SummaryView {
        SummaryView { id: self.id, title: self.title@, branch: opt_view(self.branch), state: self.state }
    }
}

/// Replace a tab's stored header by the one its tab reported; whether it
/// changed (the tab bar is redrawn only then).
pub fn update_summary(stored: &mut TabSummary, reported: TabSummary) -> (changed: bool)
    ensures
        changed == (old(stored)@ != reported@),
        final(stored)@ == reported@,
{
    let same = stored.id == reported.id && stored.title.eq(&reported.title) && opt_string_eq(
        &stored.branch,
        &reported.branch,
    ) && stored.state == reported.state;
    if same {
        false
    } else {
        *stored = reported;
        true
    }
}

/// A toolbar button.
#[derive(Clone, Copy, Debug, PartialEq, Eq, Structural)]
pub enum ToolbarEvent {
    Fetch,
    PullMerge,
    PullRebase,
    Push,
    PushForce,
    BranchNew,
    BranchRename,
    Stash,
    StashPop,
    Merge { no_ff: bool },
    Rebase,
    Compare,
    Refresh,
    Settings,
}

/// What a toolbar button does.
pub enum ToolbarAction {
    /// Nothing: the tab is busy (or, for pulls, has unresolved conflicts).
    Ignore,
    /// Run the Git command with this label and these arguments; the tab is
    /// then busy.
    Run { label: &'static str, args: Vec<String> },
    StartPullRebase,
    /// Ask to publish the branch, which has no upstream, to `remote`.
    OfferPushUpstream { remote: String },
    /// Ask before force-pushing.
    ConfirmForcePush,
    OpenBranchDialog(PendingBranchDialog),
    StashPop,
    OpenCompare,
    Refresh,
    OpenSettings,
}

/// Mathematical form of a toolbar action.
pub enum ToolbarActionView {
    Ignore,
    Run { label: Seq<char>, args: Seq<Seq<char>> },
    StartPullRebase,
    OfferPushUpstream { remote: Seq<char> },
    ConfirmForcePush,
    OpenBranchDialog(DialogView),
    StashPop,
    OpenCompare,
    Refresh,
    OpenSettings,
}

impl View for ToolbarAction {
    type V = ToolbarActionView;

    open spec fn view(&self) -> ToolbarActionView {
        match self {
            ToolbarAction::Ignore => ToolbarActionView::Ignore,
            ToolbarAction::Run { label, args } => ToolbarActionView::Run { label: label@, args: views(args@) },
            ToolbarAction::StartPullRebase => ToolbarActionView::StartPullRebase,
            ToolbarAction::OfferPushUpstream { remote } => ToolbarActionView::OfferPushUpstream { remote: remote@ },
            ToolbarAction::ConfirmForcePush => ToolbarActionView::ConfirmForcePush,
            ToolbarAction::OpenBranchDialog(d) => ToolbarActionView::OpenBranchDialog(d@),
            ToolbarAction::StashPop => ToolbarActionView::StashPop,
            ToolbarAction::OpenCompare => ToolbarActionView::OpenCompare,
            ToolbarAction::Refresh => ToolbarActionView::Refresh,
            ToolbarAction::OpenSettings => ToolbarActionView::OpenSettings,
        }
    }
}

/// The repository facts a toolbar button consults.
pub struct ToolbarContext {
    pub busy: bool,
    pub has_unresolved_conflicts: bool,
    pub branch: String,
    pub upstream: Option<String>,
    pub remotes: Vec<String>,
}

/// What a toolbar button does in a tab with these facts.
pub open spec fn spec_toolbar_action(
    event: ToolbarEvent,
    busy: bool,
    conflicts: bool,
    branch: Seq<char>,
    upstream: Option<Seq<char>>,
    remotes: Seq<Seq<char>>,
) -> ToolbarActionView {
    match event {
        ToolbarEvent::Fetch => if busy {
            ToolbarActionView::Ignore
        } else {
            ToolbarActionView::Run {
                label: "fetch --all --prune"@,
                args: seq!["fetch"@, "--all"@, "--prune"@],
            }
        },
        ToolbarEvent::PullMerge => if busy || conflicts {
            ToolbarActionView::Ignore
        } else {
            ToolbarActionView::Run { label: "pull"@, args: seq!["pull"@] }
        },
        ToolbarEvent::PullRebase => if busy || conflicts {
            ToolbarActionView::Ignore
        } else {
            ToolbarActionView::StartPullRebase
        },
        ToolbarEvent::Push => if busy {
            ToolbarActionView::Ignore
        } else {
            match spec_push_upstream_offer(branch, upstream, remotes) {
                Some(remote) => ToolbarActionView::OfferPushUpstream { remote },
                None => ToolbarActionView::Run { label: "push"@, args: seq!["push"@] },
            }
        },
        ToolbarEvent::PushForce => if busy {
            ToolbarActionView::Ignore
        } else {
            ToolbarActionView::ConfirmForcePush
        },
        ToolbarEvent::BranchNew => ToolbarActionView::OpenBranchDialog(DialogView::NewBranch),
        ToolbarEvent::BranchRename => ToolbarActionView::OpenBranchDialog(DialogView::Rename { old: branch }),
        ToolbarEvent::Stash => ToolbarActionView::OpenBranchDialog(DialogView::Stash),
        ToolbarEvent::StashPop => ToolbarActionView::StashPop,
        ToolbarEvent::Merge { no_ff } => ToolbarActionView::OpenBranchDialog(DialogView::Merge { no_ff }),
        ToolbarEvent::Rebase => ToolbarActionView::OpenBranchDialog(DialogView::Rebase),
        ToolbarEvent::Compare => ToolbarActionView::OpenCompare,
        ToolbarEvent::Refresh => if busy {
            ToolbarActionView::Ignore
        } else {
            ToolbarActionView::Refresh
        },
        ToolbarEvent::Settings => ToolbarActionView::OpenSettings,
    }
}

/// What a toolbar button does. A plain push of a branch without an upstream
/// becomes an offer to publish it; force pushes always ask first.
pub fn toolbar_action(event: ToolbarEvent, ctx: &ToolbarContext) -> (r: ToolbarAction)
    ensures
        r@ == spec_toolbar_action(
            event,
            ctx.busy,
            ctx.has_unresolved_conflicts,
            ctx.branch@,
            opt_view(ctx.upstream),
            views(ctx.remotes@),
        ),
{
    match event {
        ToolbarEvent::Fetch => {
            if ctx.busy {
                ToolbarAction::Ignore
            } else {
                let args = vec![owned("fetch"), owned("--all"), owned("--prune")];
                assert(views(args@) =~= seq!["fetch"@, "--all"@, "--prune"@]);
                ToolbarAction::Run { label: "fetch --all --prune", args }
            }
        },
        ToolbarEvent::PullMerge => {
            if ctx.busy || ctx.has_unresolved_conflicts {
                ToolbarAction::Ignore
            } else {
                let args = vec![owned("pull")];
                assert(views(args@) =~= seq!["pull"@]);
                ToolbarAction::Run { label: "pull", args }
            }
        },
        ToolbarEvent::PullRebase => {
            if ctx.busy || ctx.has_unresolved_conflicts {
                ToolbarAction::Ignore
            } else {
                ToolbarAction::StartPullRebase
            }
        },
        ToolbarEvent::Push => {
            if ctx.busy {
                return ToolbarAction::Ignore;
            }
            match push_upstream_offer(ctx.branch.as_str(), &ctx.upstream, ctx.remotes.as_slice()) {
                Some(remote) => ToolbarAction::OfferPushUpstream { remote },
                None => {
                    let args = vec![owned("push")];
                    assert(views(args@) =~= seq!["push"@]);
                    ToolbarAction::Run { label: "push", args }
                },
            }
        },
        ToolbarEvent::PushForce => {
            if ctx.busy {
                ToolbarAction::Ignore
            } else {
                ToolbarAction::ConfirmForcePush
            }
        },
        ToolbarEvent::BranchNew => ToolbarAction::OpenBranchDialog(PendingBranchDialog::NewBranch),
        ToolbarEvent::BranchRename => ToolbarAction::OpenBranchDialog(
            PendingBranchDialog::Rename { old: ctx.branch.clone() },
        ),
        ToolbarEvent::Stash => ToolbarAction::OpenBranchDialog(PendingBranchDialog::Stash),
        ToolbarEvent::StashPop => ToolbarAction::StashPop,
        ToolbarEvent::Merge { no_ff } => ToolbarAction::OpenBranchDialog(PendingBranchDialog::Merge { no_ff }),
        ToolbarEvent::Rebase => ToolbarAction::OpenBranchDialog(PendingBranchDialog::Rebase),
        ToolbarEvent::Compare => ToolbarAction::OpenCompare,
        ToolbarEvent::Refresh => {
            if ctx.busy {
                ToolbarAction::Ignore
            } else {
                ToolbarAction::Refresh
            }
        },
        ToolbarEvent::Settings => ToolbarAction::OpenSettings,
    }
}

/// The Merge buttons run the merge they ask for: the button opens the merge
/// dialog with its own `--no-ff` choice, whatever the repository state, and
/// confirming that dialog with a source branch runs `git merge <source>`,
/// with `--no-ff` exactly when the button asked for it.
pub proof fn law_merge_button_keeps_its_flag(
    no_ff: bool,
    busy: bool,
    conflicts: bool,
    branch: Seq<char>,
    upstream: Option<Seq<char>>,
    remotes: Seq<Seq<char>>,
    d: DialogsView,
    input: Seq<char>,
    ctx: ContextView,
)
    ensures
        spec_toolbar_action(ToolbarEvent::Merge { no_ff }, busy, conflicts, branch, upstream, remotes)
            == ToolbarActionView::OpenBranchDialog(DialogView::Merge { no_ff }),
        d.pending == Some(DialogView::Merge { no_ff }) && d.merge_source is Some && spec_confirm(
            d,
            input,
            ctx,
        ).1 is Some ==> ({
            let cmd = spec_confirm(d, input, ctx).1->0;
            &&& cmd.1[0] == "merge"@
            &&& cmd.1[1] == d.merge_source->0
            &&& cmd.1.len() == (if no_ff {
                3int
            } else {
                2int
            })
            &&& no_ff ==> cmd.1[2] == "--no-ff"@
        }),
{
}

/// A busy tab starts no Git work from the toolbar, a force push is never
/// run without a confirmation, and pulls wait until conflicts are
/// resolved: the command label a toolbar button runs is its Git command
/// line.
pub proof fn law_toolbar_guards(
    event: ToolbarEvent,
    busy: bool,
    conflicts: bool,
    branch: Seq<char>,
    upstream: Option<Seq<char>>,
    remotes: Seq<Seq<char>>,
)
    ensures
        busy ==> !(spec_toolbar_action(event, busy, conflicts, branch, upstream, remotes) is Run
            || spec_toolbar_action(event, busy, conflicts, branch, upstream, remotes) is StartPullRebase
            || spec_toolbar_action(event, busy, conflicts, branch, upstream, remotes) is Refresh
            || spec_toolbar_action(event, busy, conflicts, branch, upstream, remotes) is ConfirmForcePush
            || spec_toolbar_action(event, busy, conflicts, branch, upstream, remotes) is OfferPushUpstream),
        event == ToolbarEvent::PushForce ==> !(spec_toolbar_action(event, busy, conflicts, branch, upstream, remotes) is Run),
        conflicts && (event == ToolbarEvent::PullMerge || event == ToolbarEvent::PullRebase) ==> spec_toolbar_action(
            event,
            busy,
            conflicts,
            branch,
            upstream,
            remotes,
        ) is Ignore,
        !busy && event == ToolbarEvent::Fetch ==> spec_toolbar_action(event, busy, conflicts, branch, upstream, remotes)
            == (ToolbarActionView::Run { label: "fetch --all --prune"@, args: seq!["fetch"@, "--all"@, "--prune"@] }),
{
}

/// Every command the tab runs to change the repository re-reads it once it
/// succeeds: the toolbar's fetch, pull and push, and every command a
/// confirmed branch dialog runs (create, rename, delete, stash, merge,
/// rebase, remote rename and delete, stash drop).
pub proof fn law_repository_commands_refresh(
    event: ToolbarEvent,
    busy: bool,
    conflicts: bool,
    branch: Seq<char>,
    upstream: Option<Seq<char>>,
    remotes: Seq<Seq<char>>,
    d: DialogsView,
    input: Seq<char>,
    ctx: ContextView,
    message: Seq<char>,
)
    ensures
        spec_toolbar_action(event, busy, conflicts, branch, upstream, remotes) matches ToolbarActionView::Run {
            label,
            ..
        } ==> spec_refreshes_after(label) && spec_command_route(label, true, message) matches RouteView::Report {
            refresh: true,
            ..
        },
        spec_confirm(d, input, ctx).1 matches Some(cmd) ==> spec_refreshes_after(cmd.0),
{
    reveal_strlit("commit");
    reveal_strlit("checkout");
    reveal_strlit("push --force");
    reveal_strlit("push --set-upstream");
    reveal_strlit("stash pop");
    reveal_strlit("merge");
    reveal_strlit("merge --no-ff");
    reveal_strlit("merge --abort");
    reveal_strlit("rebase");
    reveal_strlit("pull --rebase");
    reveal_strlit("rebase --abort");
    reveal_strlit("push");
    reveal_strlit("copy-commit-message");
    reveal_strlit("fetch --all --prune");
    reveal_strlit("pull");
    assert("commit"@.len() == 6 && "commit"@[0] == 'c');
    assert("checkout"@.len() == 8 && "checkout"@[0] == 'c');
    assert("push --force"@.len() == 12 && "push --force"@[0] == 'p');
    assert("push --set-upstream"@.len() == 19 && "push --set-upstream"@[0] == 'p');
    assert("stash pop"@.len() == 9 && "stash pop"@[0] == 's');
    assert("merge"@.len() == 5 && "merge"@[0] == 'm');
    assert("merge --no-ff"@.len() == 13 && "merge --no-ff"@[0] == 'm');
    assert("merge --abort"@.len() == 13 && "merge --abort"@[0] == 'm');
    assert("rebase"@.len() == 6 && "rebase"@[0] == 'r');
    assert("pull --rebase"@.len() == 13 && "pull --rebase"@[0] == 'p');
    assert("rebase --abort"@.len() == 14 && "rebase --abort"@[0] == 'r');
    assert("push"@.len() == 4 && "push"@[0] == 'p');
    assert("copy-commit-message"@.len() == 19 && "copy-commit-message"@[0] == 'c');
    assert("fetch --all --prune"@.len() == 19 && "fetch --all --prune"@[0] == 'f');
    assert("pull"@.len() == 4 && "pull"@[0] == 'p');
}

/// The commands run outside the toolbar and the branch dialogs (a commit
/// from the commit panel, a checkout, a confirmed force push or publish, a
/// stash pop) also re-read the repository when they succeed, whatever Git
/// printed; and no failed command re-reads it.
pub proof fn law_other_commands_refresh(label: Seq<char>, message: Seq<char>)
    ensures
        label == "commit"@ || label == "checkout"@ || label == "push --force"@ || label
            == "push --set-upstream"@ || label == "stash pop"@ ==> spec_refreshes_after(label) && spec_command_route(
            label,
            true,
            message,
        ) matches RouteView::Report { refresh: true, .. },
        spec_command_route(label, false, message) matches RouteView::Report { refresh, .. } ==> !refresh,
{
    reveal_strlit("commit");
    reveal_strlit("checkout");
    reveal_strlit("push --force");
    reveal_strlit("push --set-upstream");
    reveal_strlit("stash pop");
    reveal_strlit("merge");
    reveal_strlit("merge --no-ff");
    reveal_strlit("merge --abort");
    reveal_strlit("rebase");
    reveal_strlit("pull --rebase");
    reveal_strlit("rebase --abort");
    reveal_strlit("push");
    reveal_strlit("copy-commit-message");
    assert("commit"@.len() == 6 && "commit"@[0] == 'c');
    assert("checkout"@.len() == 8 && "checkout"@[0] == 'c');
    assert("push --force"@.len() == 12 && "push --force"@[0] == 'p');
    assert("push --set-upstream"@.len() == 19 && "push --set-upstream"@[0] == 'p');
    assert("stash pop"@.len() == 9 && "stash pop"@[0] == 's');
    assert("merge"@.len() == 5 && "merge"@[0] == 'm');
    assert("merge --no-ff"@.len() == 13 && "merge --no-ff"@[0] == 'm');
    assert("merge --abort"@.len() == 13 && "merge --abort"@[0] == 'm');
    assert("rebase"@.len() == 6 && "rebase"@[0] == 'r');
    assert("pull --rebase"@.len() == 13 && "pull --rebase"@[0] == 'p');
    assert("rebase --abort"@.len() == 14 && "rebase --abort"@[0] == 'r');
    assert("push"@.len() == 4 && "push"@[0] == 'p');
    assert("copy-commit-message"@.len() == 19 && "copy-commit-message"@[0] == 'c');
}

/// One file offered for discarding.
#[derive(Clone, Copy, Debug, PartialEq, Eq, Structural)]
pub struct DiscardFile {
    pub conflicted: bool,
    pub untracked: bool,
}

pub open spec fn count_untracked(files: Seq<DiscardFile>) -> nat
    decreases files.len(),
{
    if files.len() == 0 {
        0
    } else {
        count_untracked(files.drop_last()) + if files.last().untracked {
            1nat
        } else {
            0nat
        }
    }
}

/// Whether discarding `files` needs the user's confirmation, with the number
/// of tracked and untracked files to show; `None` when nothing is offered:
/// the tab is busy, there is no file, or a file is conflicted.
pub fn discard_request(files: &Vec<DiscardFile>, busy: bool) -> (r: Option<(usize, usize)>)
    ensures
        busy || files@.len() == 0 || (exists|i: int| 0 <= i < files@.len() && #[trigger] files@[i].conflicted)
            ==> r is None,
        !(busy || files@.len() == 0 || (exists|i: int| 0 <= i < files@.len() && #[trigger] files@[i].conflicted))
            ==> r == Some(((files@.len() - count_untracked(files@)) as usize, count_untracked(files@) as usize)),
{
    if busy || files.len() == 0 {
        return None;
    }
    let mut untracked: usize = 0;
    for i in 0..files.len()
        invariant
            untracked == count_untracked(files@.take(i as int)),
            untracked <= i,
            forall|j: int| 0 <= j < i ==> !(#[trigger] files@[j]).conflicted,
    {
        assert(files@.take(i + 1).drop_last() =~= files@.take(i as int));
        assert(files@.take(i + 1).last() == files@[i as int]);
        if files[i].conflicted {
            return None;
        }
        if files[i].untracked {
            untracked += 1;
        }
    }
    assert(files@.take(files@.len() as int) =~= files@);
    Some((files.len() - untracked, untracked))
}


/// A merge command that was started and has not reported back yet.
pub struct PendingMerge {
    pub source: String,
    pub no_ff: bool,
}

/// The merge bookkeeping of a repository tab: an abort waiting for its
/// result, a merge waiting for its result, and the number of the latest
/// conflict probe.
pub struct MergeTracker {
    pub abort_pending: bool,
    pub pending: Option<PendingMerge>,
    pub probe_request_id: u64,
}

/// The confirmation a failed merge leaves open.
pub enum MergeConfirmation {
    /// Git left `MERGE_HEAD` behind: a real conflict.
    Conflict { source: String, detail: String, merge_head: String },
    /// Any other failure.
    Error { label: String, detail: String },
}

/// What to do with the result of a merge command.
pub enum MergeStep {
    /// The abort went through: close the confirmation, report success,
    /// re-read the repository.
    AbortSucceeded { label: String },
    /// The abort failed: show it as a merge error.
    AbortFailed { label: String, detail: String },
    /// No merge was being tracked: only clear the busy flag.
    Untracked,
    /// The merge went through: report success and re-read the repository.
    Succeeded { label: String },
    /// The merge failed: probe the repository (request `request_id`) for a
    /// conflict before saying what went wrong; the tab stays busy.
    Probe { request_id: u64, label: String, source: String, detail: String },
}

impl MergeTracker {
    /// No merge or abort in flight.
    pub fn new() -> (r: MergeTracker)
        ensures
            !r.abort_pending,
            r.pending is None,
            r.probe_request_id == 0,
    {
        MergeTracker { abort_pending: false, pending: None, probe_request_id: 0 }
    }

    /// Remember a merge of `source` that was just started.
    pub fn start(&mut self, source: String, no_ff: bool)
        ensures
            final(self).pending matches Some(p) && p.source@ == source@ && p.no_ff == no_ff,
            final(self).abort_pending == old(self).abort_pending,
            final(self).probe_request_id == old(self).probe_request_id,
    {
        self.pending = Some(PendingMerge { source, no_ff });
    }

    /// Take the result of a merge command (`success`, with Git's `detail`),
    /// an abort's result first.
    pub fn handle_result(&mut self, label: String, success: bool, detail: String) -> (r: MergeStep)
        ensures
            old(self).abort_pending ==> !final(self).abort_pending && final(self).pending == old(self).pending
                && final(self).probe_request_id == old(self).probe_request_id && if success {
                r matches MergeStep::AbortSucceeded { label: l } && l@ == label@
            } else {
                r matches MergeStep::AbortFailed { label: l, detail: d } && l@ == label@ && d@ == detail@
            },
            !old(self).abort_pending ==> !final(self).abort_pending && final(self).pending is None && match old(
                self,
            ).pending {
                None => r is Untracked && final(self).probe_request_id == old(self).probe_request_id,
                Some(p) => if success {
                    r matches MergeStep::Succeeded { label: l } && l@ == label@ && final(self).probe_request_id
                        == old(self).probe_request_id
                } else {
                    &&& final(self).probe_request_id == spec_next_request_id(old(self).probe_request_id)
                    &&& r matches MergeStep::Probe { request_id, label: l, source, detail: d }
                    &&& request_id == final(self).probe_request_id
                    &&& l@ == label@ && source@ == p.source@ && d@ == detail@
                },
            },
    {
        if self.abort_pending {
            self.abort_pending = false;
            if success {
                return MergeStep::AbortSucceeded { label };
            } else {
                return MergeStep::AbortFailed { label, detail };
            }
        }
        let pending = self.pending.take();
        match pending {
            None => MergeStep::Untracked,
            Some(p) => {
                if success {
                    MergeStep::Succeeded { label }
                } else {
                    self.probe_request_id = next_request_id(self.probe_request_id);
                    MergeStep::Probe { request_id: self.probe_request_id, label, source: p.source, detail }
                }
            },
        }
    }

    /// The confirmation after the conflict probe `request_id` answered with
    /// `result` (the `MERGE_HEAD` it found, if any, or why it failed);
    /// `None` when a newer probe superseded it.
    pub fn finish_probe(
        &self,
        request_id: u64,
        label: String,
        source: String,
        detail: String,
        result: Result<Option<String>, String>,
    ) -> (r: Option<MergeConfirmation>)
        ensures
            request_id != self.probe_request_id ==> r is None,
            request_id == self.probe_request_id ==> match result {
                Ok(Some(head)) => r matches Some(MergeConfirmation::Conflict { source: s, detail: d, merge_head: h })
                    && s@ == source@ && d@ == detail@ && h@ == head@,
                Ok(None) => r matches Some(MergeConfirmation::Error { label: l, detail: d }) && l@ == label@ && d@
                    == detail@,
                Err(e) => r matches Some(MergeConfirmation::Error { label: l, detail: d }) && l@ == label@ && d@
                    == detail@ + "\n\n"@ + e@,
            },
    {
        if request_id != self.probe_request_id {
            return None;
        }
        match result {
            Ok(Some(head)) => Some(MergeConfirmation::Conflict { source, detail, merge_head: head }),
            Ok(None) => Some(MergeConfirmation::Error { label, detail }),
            Err(e) => {
                let mut d = detail;
                d.append("\n\n");
                d.append(e.as_str());
                Some(MergeConfirmation::Error { label, detail: d })
            },
        }
    }
}


/// The confirmation a repository tab shows over its content: the files of a
/// discard are in `S`, the task an Agent would start on a shared working
/// tree in `C`.
pub enum PendingConfirmation<S, C> {
    ForcePush,
    PushSetUpstream { branch: String, remote: String },
    Discard { scope: S, tracked_count: usize, untracked_count: usize },
    AgentSessionClose { id: u64 },
    AgentSharedTree { task: C },
    Merge(MergeConfirmation),
}

/// The open confirmation of a repository tab, if any.
pub struct TabConfirmation<S, C> {
    pub pending: Option<PendingConfirmation<S, C>>,
}

/// Which confirmation is open, by kind.
#[derive(Clone, Copy, Debug, PartialEq, Eq, Structural)]
pub enum ConfirmationKind {
    ForcePush,
    PushSetUpstream,
    Discard,
    AgentSessionClose,
    AgentSharedTree,
    Merge,
}

pub open spec fn kind_of<S, C>(p: Option<PendingConfirmation<S, C>>) -> Option<ConfirmationKind> {
    match p {
        None => None,
        Some(PendingConfirmation::ForcePush) => Some(ConfirmationKind::ForcePush),
        Some(PendingConfirmation::PushSetUpstream { .. }) => Some(ConfirmationKind::PushSetUpstream),
        Some(PendingConfirmation::Discard { .. }) => Some(ConfirmationKind::Discard),
        Some(PendingConfirmation::AgentSessionClose { .. }) => Some(ConfirmationKind::AgentSessionClose),
        Some(PendingConfirmation::AgentSharedTree { .. }) => Some(ConfirmationKind::AgentSharedTree),
        Some(PendingConfirmation::Merge(_)) => Some(ConfirmationKind::Merge),
    }
}

impl<S, C> TabConfirmation<S, C> {
    /// Nothing to confirm.
    pub fn new() -> (r: Self)
        ensures
            r.pending is None,
    {
        TabConfirmation { pending: None }
    }

    /// Which confirmation is open.
    pub fn kind(&self) -> (r: Option<ConfirmationKind>)
        ensures
            r == kind_of(self.pending),
    {
        match &self.pending {
            None => None,
            Some(PendingConfirmation::ForcePush) => Some(ConfirmationKind::ForcePush),
            Some(PendingConfirmation::PushSetUpstream { .. }) => Some(ConfirmationKind::PushSetUpstream),
            Some(PendingConfirmation::Discard { .. }) => Some(ConfirmationKind::Discard),
            Some(PendingConfirmation::AgentSessionClose { .. }) => Some(ConfirmationKind::AgentSessionClose),
            Some(PendingConfirmation::AgentSharedTree { .. }) => Some(ConfirmationKind::AgentSharedTree),
            Some(PendingConfirmation::Merge(_)) => Some(ConfirmationKind::Merge),
        }
    }

    /// Ask to confirm discarding `files` (the scope `scope`): opened unless
    /// the tab is busy, there is nothing to discard, or a file is
    /// conflicted. Whether it opened.
    pub fn request_discard(&mut self, scope: S, files: &Vec<DiscardFile>, busy: bool) -> (opened: bool)
        ensures
            opened == discard_offered(files@, busy),
            final(self).pending == spec_request_discard(old(self).pending, scope, files@, busy),
    {
        match discard_request(files, busy) {
            Some((tracked_count, untracked_count)) => {
                self.pending = Some(PendingConfirmation::Discard { scope, tracked_count, untracked_count });
                true
            },
            None => false,
        }
    }

    /// The user confirmed: the scope to discard when a discard was being
    /// confirmed. The confirmation closes either way.
    pub fn confirm_discard(&mut self) -> (r: Option<S>)
        ensures
            final(self).pending is None,
            r == spec_confirmed_discard(old(self).pending),
    {
        match self.pending.take() {
            Some(PendingConfirmation::Discard { scope, .. }) => Some(scope),
            _ => None,
        }
    }

    /// Ask to confirm a force push.
    pub fn request_force_push(&mut self, busy: bool) -> (opened: bool)
        ensures
            opened == !busy,
            opened ==> final(self).pending == Some(PendingConfirmation::<S, C>::ForcePush),
            !opened ==> final(self).pending == old(self).pending,
    {
        if busy {
            return false;
        }
        self.pending = Some(PendingConfirmation::ForcePush);
        true
    }

    /// The user confirmed the force push: whether to run it (not while
    /// busy). Running it closes the confirmation.
    pub fn start_force_push(&mut self, busy: bool) -> (run: bool)
        ensures
            run == !busy,
            run ==> final(self).pending is None,
            !run ==> final(self).pending == old(self).pending,
    {
        if busy {
            return false;
        }
        self.pending = None;
        true
    }

    /// Offer to publish `branch` to a remote when it has no upstream: opened
    /// when the branch is named, has no upstream and a remote exists.
    pub fn request_push_upstream(&mut self, branch: &str, upstream: &Option<String>, remotes: &[String]) -> (opened:
        bool)
        ensures
            opened == (spec_push_upstream_offer(branch@, opt_view(*upstream), views(remotes@)) is Some),
            opened ==> (final(self).pending matches Some(PendingConfirmation::PushSetUpstream { branch: b, remote })
                && b@ == branch@ && Some(remote@) == spec_push_upstream_offer(
                branch@,
                opt_view(*upstream),
                views(remotes@),
            )),
            !opened ==> final(self).pending == old(self).pending,
    {
        match push_upstream_offer(branch, upstream, remotes) {
            Some(remote) => {
                self.pending = Some(PendingConfirmation::PushSetUpstream { branch: owned(branch), remote });
                true
            },
            None => false,
        }
    }

    /// The user confirmed publishing: the remote and branch to push with
    /// `--set-upstream`, unless no such confirmation was open or the tab is
    /// busy. The confirmation closes either way.
    pub fn start_push_upstream(&mut self, busy: bool) -> (r: Option<(String, String)>)
        ensures
            final(self).pending is None,
            match old(self).pending {
                Some(PendingConfirmation::PushSetUpstream { branch, remote }) => if busy {
                    r is None
                } else {
                    r matches Some((rm, br)) && rm@ == remote@ && br@ == branch@
                },
                _ => r is None,
            },
    {
        match self.pending.take() {
            Some(PendingConfirmation::PushSetUpstream { branch, remote }) => {
                if busy {
                    None
                } else {
                    Some((remote, branch))
                }
            },
            _ => None,
        }
    }

    /// Close the open confirmation; whether one was open.
    pub fn cancel(&mut self) -> (closed: bool)
        ensures
            closed == (old(self).pending is Some),
            final(self).pending is None,
    {
        self.pending.take().is_some()
    }
}

/// Whether a discard of `files` is offered for confirmation.
pub open spec fn discard_offered(files: Seq<DiscardFile>, busy: bool) -> bool {
    !(busy || files.len() == 0 || (exists|i: int| 0 <= i < files.len() && #[trigger] files[i].conflicted))
}

/// The confirmation after asking to discard `files` in `scope`.
pub open spec fn spec_request_discard<S, C>(
    pending: Option<PendingConfirmation<S, C>>,
    scope: S,
    files: Seq<DiscardFile>,
    busy: bool,
) -> Option<PendingConfirmation<S, C>> {
    if discard_offered(files, busy) {
        Some(
            PendingConfirmation::Discard {
                scope,
                tracked_count: (files.len() - count_untracked(files)) as usize,
                untracked_count: count_untracked(files) as usize,
            },
        )
    } else {
        pending
    }
}

/// What confirming discards: the scope of an open discard confirmation,
/// nothing otherwise.
pub open spec fn spec_confirmed_discard<S, C>(pending: Option<PendingConfirmation<S, C>>) -> Option<S> {
    match pending {
        Some(PendingConfirmation::Discard { scope, .. }) => Some(scope),
        _ => None,
    }
}

/// A discard runs only after its confirmation, and then on the files it was
/// asked for: confirming a discard that was offered discards its scope,
/// while confirming with no discard confirmation open discards nothing.
pub proof fn law_discard_needs_confirmation<S, C>(
    pending: Option<PendingConfirmation<S, C>>,
    scope: S,
    files: Seq<DiscardFile>,
    busy: bool,
)
    ensures
        discard_offered(files, busy) ==> spec_confirmed_discard(spec_request_discard(pending, scope, files, busy))
            == Some(scope),
        !(pending matches Some(PendingConfirmation::Discard { .. })) ==> spec_confirmed_discard(pending) is None,
{
}


/// What the commit panel's submit button does.
#[derive(Clone, Copy, Debug, PartialEq, Eq, Structural)]
pub enum CommitAction {
    Commit,
    Amend,
    CommitByAgent,
}

/// How the tab answers a commit submission.
#[derive(Clone, Copy, Debug, PartialEq, Eq, Structural)]
pub enum CommitStep {
    /// The tab is busy: nothing happens.
    Ignore,
    /// Run `git commit` (amending the last commit when `amend`); the tab
    /// becomes busy.
    Run { amend: bool },
    /// Hand the commit to an Agent session, the message as its hint.
    RequestAgentCommit,
}

/// How the tab answers a commit submission with `action` while `busy`.
pub fn commit_submit(action: CommitAction, busy: bool) -> (r: CommitStep)
    ensures
        busy ==> r == CommitStep::Ignore,
        !busy ==> r == match action {
            CommitAction::Commit => CommitStep::Run { amend: false },
            CommitAction::Amend => CommitStep::Run { amend: true },
            CommitAction::CommitByAgent => CommitStep::RequestAgentCommit,
        },
{
    if busy {
        return CommitStep::Ignore;
    }
    match action {
        CommitAction::Commit => CommitStep::Run { amend: false },
        CommitAction::Amend => CommitStep::Run { amend: true },
        CommitAction::CommitByAgent => CommitStep::RequestAgentCommit,
    }
}

} // verus!
