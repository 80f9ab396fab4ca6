//! Lifecycle decisions of a visible external Agent session window.
//!
//! Connectivity tests and Commit by AI sessions run in ordinary terminal
//! windows; this module holds what the window decides on each monitor tick:
//! the state it shows, when a commit is detected or finished, and what it
//! reports back to the workspace. Times are milliseconds on a monotonic clock.
use vstd::prelude::*;
use crate::agent_commit::{
    AgentCommitOutcome,
    AgentCommitProbe,
    CommitOutcomeView,
    CommitProbeView,
    classify_probe,
    spec_classify_probe,
    opt_commit_outcome_view,
};
use crate::text::{first_line, spec_first_line, opt_view, opt_string_eq, owned};

verus! {

/// How long a changed HEAD may wait for the completion marker before the
/// verified HEAD is taken as the result.
pub const COMMIT_MARKER_TIMEOUT_MS: u64 = 30000;

/// How long the terminal must have been quiet before that timeout applies.
pub const TERMINAL_QUIET_MS: u64 = 3000;

/// What a session window is for.
#[derive(Clone, Copy, Debug, PartialEq, Eq, Structural)]
pub enum AgentSessionKind {
    Connectivity,
    Commit,
}

/// What the session window currently shows.
#[derive(Debug, PartialEq, Eq)]
pub enum ConnectivityState {
    Starting,
    WaitingForResponse,
    ResponseReceived,
    CommitDetected { oid: String },
    CommitCompleted { outcome: AgentCommitOutcome },
    Exited { code: Option<i32>, response_received: bool },
    Failed(String),
}

/// Mathematical form of a window state.
pub enum StateView {
    Starting,
    WaitingForResponse,
    ResponseReceived,
    CommitDetected { oid: Seq<char> },
    CommitCompleted { outcome: CommitOutcomeView },
    Exited { code: Option<i32>, response_received: bool },
    Failed(Seq<char>),
}

impl View for ConnectivityState {
    type V = StateView;

    open spec fn view(&self) -> StateView {
        match self {
            ConnectivityState::Starting => StateView::Starting,
            ConnectivityState::WaitingForResponse => StateView::WaitingForResponse,
            ConnectivityState::ResponseReceived => StateView::ResponseReceived,
            ConnectivityState::CommitDetected { oid } => StateView::CommitDetected { oid: oid@ },
            ConnectivityState::CommitCompleted { outcome } => StateView::CommitCompleted {
                outcome: outcome@,
            },
            ConnectivityState::Exited { code, response_received } => StateView::Exited {
                code: *code,
                response_received: *response_received,
            },
            ConnectivityState::Failed(summary) => StateView::Failed(summary@),
        }
    }
}

/// The decision state of one session window.
pub struct AgentSessionWindow {
    pub kind: AgentSessionKind,
    /// Display name of the Agent profile the session runs.
    pub profile_name: String,
    pub state: ConnectivityState,
    pub response_received: bool,
    pub stop_requested: bool,
    /// Repository state sampled before the Commit by AI terminal started.
    pub commit_baseline: Option<AgentCommitProbe>,
    /// The first HEAD seen to differ from the baseline.
    pub commit_head_observed: Option<String>,
    /// When that HEAD was first seen.
    pub commit_head_observed_at: Option<u64>,
    pub commit_completed: bool,
    /// Whether a repository tab still waits for this session's result.
    pub awaiting_completion: bool,
    /// The identifier the waiting repository tab knows this session by.
    pub session_id: Option<u64>,
}

/// Mathematical form of a session window.
pub struct WindowView {
    pub kind: AgentSessionKind,
    pub profile_name: Seq<char>,
    pub state: StateView,
    pub response_received: bool,
    pub stop_requested: bool,
    pub baseline: Option<CommitProbeView>,
    pub observed: Option<Seq<char>>,
    pub observed_at: Option<u64>,
    pub completed: bool,
    pub awaiting: bool,
    pub session_id: Option<u64>,
}

pub open spec fn opt_probe_view(p: Option<AgentCommitProbe>) -> Option<CommitProbeView> {
    match p {
        Some(x) => Some(x@),
        None => None,
    }
}

impl View for AgentSessionWindow {
    type V = WindowView;

    open spec fn view(&self) -> WindowView {
        WindowView {
            kind: self.kind,
            profile_name: self.profile_name@,
            state: self.state@,
            response_received: self.response_received,
            stop_requested: self.stop_requested,
            baseline: opt_probe_view(self.commit_baseline),
            observed: opt_view(self.commit_head_observed),
            observed_at: self.commit_head_observed_at,
            completed: self.commit_completed,
            awaiting: self.awaiting_completion,
            session_id: self.session_id,
        }
    }
}

/// What finishing a commit session hands to the application.
pub struct CommitFinish {
    pub outcome: AgentCommitOutcome,
    /// Report the outcome to the waiting repository tab.
    pub notify_workspace: bool,
    /// Close the window after a short delay (only after a confirmed commit).
    pub close_window: bool,
}

/// Mathematical form of a finish report.
pub struct FinishView {
    pub outcome: CommitOutcomeView,
    pub notify_workspace: bool,
    pub close_window: bool,
}

pub open spec fn opt_finish_view(f: Option<CommitFinish>) -> Option<FinishView> {
    match f {
        Some(x) => Some(
            FinishView {
                outcome: x.outcome@,
                notify_workspace: x.notify_workspace,
                close_window: x.close_window,
            },
        ),
        None => None,
    }
}

/// Whether the window shows a session that is still in progress.
pub open spec fn spec_is_running(w: WindowView) -> bool {
    &&& (w.state is Starting || w.state is WaitingForResponse || w.state is ResponseReceived
        || w.state is CommitDetected)
    &&& !w.stop_requested
}

/// Finishing a commit session: only the first finish counts. It stops the
/// session, shows the outcome (a failure keeps an already shown failure text),
/// and reports to the waiting tab once.
pub open spec fn spec_finish(w: WindowView, outcome: CommitOutcomeView) -> (WindowView, Option<FinishView>) {
    if w.completed {
        (w, None)
    } else {
        (
            WindowView {
                state: if w.state is Failed && outcome is Failed {
                    w.state
                } else {
                    StateView::CommitCompleted { outcome }
                },
                stop_requested: true,
                completed: true,
                awaiting: false,
                ..w
            },
            Some(
                FinishView {
                    outcome,
                    notify_workspace: w.awaiting,
                    close_window: w.awaiting && outcome is Committed,
                },
            ),
        )
    }
}

/// The classification of a probe against the window's baseline.
pub open spec fn spec_classify_against(
    baseline: Option<CommitProbeView>,
    probe: Option<CommitProbeView>,
) -> Option<CommitOutcomeView> {
    match (baseline, probe) {
        (Some(b), Some(p)) => spec_classify_probe(b.head, p.head, p.has_changes, p.has_conflicts),
        _ => None,
    }
}

/// Whether a probe shows, for the first time, a HEAD other than the baseline's.
pub open spec fn spec_new_head(w: WindowView, probe: Option<CommitProbeView>) -> bool {
    match (w.baseline, probe) {
        (Some(b), Some(p)) => b.head != p.head && w.observed is None && p.head is Some,
        _ => false,
    }
}

/// The window after recording a newly seen HEAD.
pub open spec fn spec_observe(w: WindowView, probe: Option<CommitProbeView>, now: u64) -> WindowView {
    if spec_new_head(w, probe) {
        WindowView {
            observed: probe->0.head,
            observed_at: Some(now),
            state: StateView::CommitDetected { oid: probe->0.head->0 },
            ..w
        }
    } else {
        w
    }
}

/// Whether a HEAD seen long enough ago, with a quiet terminal, stands in for
/// the missing completion marker.
pub open spec fn spec_marker_timed_out(w: WindowView, now: u64, last_activity: Option<u64>) -> bool {
    &&& w.observed is Some
    &&& w.observed_at is Some
    &&& last_activity is Some
    &&& now >= w.observed_at->0 + COMMIT_MARKER_TIMEOUT_MS
    &&& now >= last_activity->0 + TERMINAL_QUIET_MS
}

/// The probe of a tick, if it could be taken.
pub open spec fn tick_probe(p: Option<Result<AgentCommitProbe, String>>) -> Option<CommitProbeView> {
    match p {
        Some(Ok(x)) => Some(x@),
        _ => None,
    }
}

/// The exit code of a finished terminal, if it finished in this tick.
pub open spec fn tick_exit(c: Option<Result<Option<i32>, String>>) -> Option<Option<i32>> {
    match c {
        Some(Ok(code)) => Some(code),
        Some(Err(_)) => Some(None),
        None => None,
    }
}

/// One monitor tick of a commit session: the new window, the HEAD to report
/// to the waiting tab, and the finish report.
pub open spec fn spec_commit_tick(
    w: WindowView,
    probe: Option<CommitProbeView>,
    marker_seen: bool,
    exited: Option<Option<i32>>,
    now: u64,
    last_activity: Option<u64>,
) -> (WindowView, Option<Seq<char>>, Option<FinishView>) {
    if w.completed {
        (w, None, None)
    } else {
        let w1 = spec_observe(w, probe, now);
        let seen = if spec_new_head(w, probe) && w.awaiting {
            probe->0.head
        } else {
            None
        };
        let classified = spec_classify_against(w1.baseline, probe);
        if marker_seen {
            let outcome = match classified {
                Some(o) => o,
                None => CommitOutcomeView::Failed,
            };
            (spec_finish(w1, outcome).0, seen, spec_finish(w1, outcome).1)
        } else if exited is Some {
            let outcome = match classified {
                Some(o) => o,
                None => CommitOutcomeView::ExitedUnverified { code: exited->0 },
            };
            (spec_finish(w1, outcome).0, seen, spec_finish(w1, outcome).1)
        } else if spec_marker_timed_out(w1, now, last_activity) {
            let outcome = CommitOutcomeView::Committed { oid: w1.observed->0 };
            (spec_finish(w1, outcome).0, seen, spec_finish(w1, outcome).1)
        } else {
            (w1, seen, None)
        }
    }
}

/// One monitor tick of a connectivity test.
pub open spec fn spec_connectivity_tick(
    w: WindowView,
    response_received: bool,
    completion: Option<Result<Option<i32>, Seq<char>>>,
) -> WindowView {
    let received = w.response_received || response_received;
    WindowView {
        response_received: received,
        state: match completion {
            Some(Ok(code)) => StateView::Exited { code, response_received: received },
            Some(Err(summary)) => StateView::Failed(summary),
            None => if received {
                StateView::ResponseReceived
            } else if w.state is Starting {
                StateView::WaitingForResponse
            } else {
                w.state
            },
        },
        ..w
    }
}

pub open spec fn completion_view(c: Option<Result<Option<i32>, String>>) -> Option<Result<Option<i32>, Seq<char>>> {
    match c {
        Some(Ok(code)) => Some(Ok(code)),
        Some(Err(s)) => Some(Err(s@)),
        None => None,
    }
}

/// What the application does once a freshly opened window exists.
#[derive(Clone, Copy, Debug, PartialEq, Eq, Structural)]
pub enum StartStep {
    /// Nothing: the window shows a startup error.
    Idle,
    /// Sample the repository first, then start the terminal.
    ProbeBaseline,
    /// Start the terminal now.
    StartTerminal,
}

/// What the baseline sample led to.
pub enum AfterBaseline {
    /// The session was stopped or finished meanwhile.
    Ignored,
    /// Start the terminal now.
    StartTerminal,
    /// The sample failed, which finished the session.
    Finished(CommitFinish),
}

/// What a stop request did.
pub enum StopEffect {
    /// The session was not running; nothing changed.
    NotRunning,
    /// A commit session was cancelled.
    CommitCancelled(CommitFinish),
    /// A connectivity test was stopped; shut its terminal down.
    Stopped,
}

/// What one commit tick hands to the application.
pub struct CommitTick {
    /// A newly seen HEAD to report to the waiting tab.
    pub observed_head: Option<String>,
    /// The session finished in this tick.
    pub finished: Option<CommitFinish>,
}

impl AgentSessionWindow {
    /// A new window; a startup error is shown at once and starts nothing.
    pub fn new(
        kind: AgentSessionKind,
        profile_name: String,
        startup_error: Option<String>,
        awaiting_completion: bool,
        session_id: Option<u64>,
    ) -> (r: (AgentSessionWindow, StartStep))
        ensures
            r.0@ == (WindowView {
                kind,
                profile_name: profile_name@,
                state: match opt_view(startup_error) {
                    Some(e) => StateView::Failed(e),
                    None => StateView::Starting,
                },
                response_received: false,
                stop_requested: false,
                baseline: None,
                observed: None,
                observed_at: None,
                completed: false,
                awaiting: awaiting_completion,
                session_id,
            }),
            r.1 == (if startup_error is Some {
                StartStep::Idle
            } else if kind == AgentSessionKind::Commit {
                StartStep::ProbeBaseline
            } else {
                StartStep::StartTerminal
            }),
    {
        let has_error = startup_error.is_some();
        let state = match startup_error {
            Some(e) => ConnectivityState::Failed(e),
            None => ConnectivityState::Starting,
        };
        let step = if has_error {
            StartStep::Idle
        } else if kind == AgentSessionKind::Commit {
            StartStep::ProbeBaseline
        } else {
            StartStep::StartTerminal
        };
        (
            AgentSessionWindow {
                kind,
                profile_name,
                state,
                response_received: false,
                stop_requested: false,
                commit_baseline: None,
                commit_head_observed: None,
                commit_head_observed_at: None,
                commit_completed: false,
                awaiting_completion,
                session_id,
            },
            step,
        )
    }

    /// Whether the session is still in progress.
    pub fn is_running(&self) -> (r: bool)
        ensures
            r == spec_is_running(self@),
    {
        let active = match &self.state {
            ConnectivityState::Starting
            | ConnectivityState::WaitingForResponse
            | ConnectivityState::ResponseReceived
            | ConnectivityState::CommitDetected { .. } => true,
            _ => false,
        };
        active && !self.stop_requested
    }

    /// Finish a commit session with `outcome`; a second finish does nothing.
    pub fn finish_commit(&mut self, outcome: AgentCommitOutcome) -> (r: Option<CommitFinish>)
        ensures
            final(self)@ == spec_finish(old(self)@, outcome@).0,
            opt_finish_view(r) == spec_finish(old(self)@, outcome@).1,
    {
        if self.commit_completed {
            return None;
        }
        self.commit_completed = true;
        self.stop_requested = true;
        let success = match &outcome {
            AgentCommitOutcome::Committed { .. } => true,
            _ => false,
        };
        let keep_failure = match (&self.state, &outcome) {
            (ConnectivityState::Failed(_), AgentCommitOutcome::Failed) => true,
            _ => false,
        };
        if !keep_failure {
            self.state = ConnectivityState::CommitCompleted { outcome: outcome.duplicate() };
        }
        let notify = self.awaiting_completion;
        self.awaiting_completion = false;
        Some(CommitFinish { outcome, notify_workspace: notify, close_window: notify && success })
    }

    /// Start a commit session once its baseline sample is known.
    pub fn start_commit_after_probe(&mut self, result: Result<AgentCommitProbe, String>) -> (r: AfterBaseline)
        ensures
            old(self).stop_requested || old(self).commit_completed ==> {
                &&& r is Ignored
                &&& final(self)@ == old(self)@
            },
            !(old(self).stop_requested || old(self).commit_completed) ==> match result {
                Ok(b) => {
                    &&& r is StartTerminal
                    &&& final(self)@ == (WindowView { baseline: Some(b@), ..old(self)@ })
                },
                Err(e) => {
                    let failed = WindowView {
                        state: StateView::Failed(spec_first_line(e@)),
                        ..old(self)@
                    };
                    &&& r matches AfterBaseline::Finished(f)
                    &&& final(self)@ == spec_finish(failed, CommitOutcomeView::Failed).0
                    &&& opt_finish_view(Some(f)) == spec_finish(failed, CommitOutcomeView::Failed).1
                },
            },
    {
        if self.stop_requested || self.commit_completed {
            return AfterBaseline::Ignored;
        }
        match result {
            Ok(baseline) => {
                self.commit_baseline = Some(baseline);
                AfterBaseline::StartTerminal
            },
            Err(error) => {
                self.state = ConnectivityState::Failed(owned(first_line(error.as_str())));
                match self.finish_commit(AgentCommitOutcome::Failed) {
                    Some(f) => AfterBaseline::Finished(f),
                    None => AfterBaseline::Ignored,
                }
            },
        }
    }

    /// One monitor tick of a connectivity test.
    pub fn handle_connectivity_tick(
        &mut self,
        response_received: bool,
        completion: Option<Result<Option<i32>, String>>,
    )
        ensures
            final(self)@ == spec_connectivity_tick(old(self)@, response_received, completion_view(completion)),
    {
        if response_received && !self.response_received {
            self.response_received = true;
        }
        match completion {
            Some(Ok(code)) => {
                self.state = ConnectivityState::Exited {
                    code,
                    response_received: self.response_received,
                };
            },
            Some(Err(summary)) => {
                self.state = ConnectivityState::Failed(summary);
            },
            None => {
                if self.response_received {
                    self.state = ConnectivityState::ResponseReceived;
                } else if matches!(self.state, ConnectivityState::Starting) {
                    self.state = ConnectivityState::WaitingForResponse;
                }
            },
        }
    }

    fn classify_current(&self, probe: &Option<AgentCommitProbe>) -> (r: Option<AgentCommitOutcome>)
        ensures
            opt_commit_outcome_view(r) == spec_classify_against(
                opt_probe_view(self.commit_baseline),
                opt_probe_view(*probe),
            ),
    {
        match (&self.commit_baseline, probe) {
            (Some(b), Some(p)) => classify_probe(b, p),
            _ => None,
        }
    }

    /// One monitor tick of a commit session: an optional repository probe,
    /// whether the completion marker was seen, the terminal's exit if it
    /// exited, the current time and the terminal's last activity.
    pub fn handle_commit_tick(
        &mut self,
        probe: Option<Result<AgentCommitProbe, String>>,
        marker_seen: bool,
        completion: Option<Result<Option<i32>, String>>,
        now_ms: u64,
        last_activity_ms: Option<u64>,
    ) -> (r: CommitTick)
        ensures
            final(self)@ == spec_commit_tick(
                old(self)@,
                tick_probe(probe),
                marker_seen,
                tick_exit(completion),
                now_ms,
                last_activity_ms,
            ).0,
            opt_view(r.observed_head) == spec_commit_tick(
                old(self)@,
                tick_probe(probe),
                marker_seen,
                tick_exit(completion),
                now_ms,
                last_activity_ms,
            ).1,
            opt_finish_view(r.finished) == spec_commit_tick(
                old(self)@,
                tick_probe(probe),
                marker_seen,
                tick_exit(completion),
                now_ms,
                last_activity_ms,
            ).2,
    {
        if self.commit_completed {
            return CommitTick { observed_head: None, finished: None };
        }
        let ghost w0 = self@;
        let ghost pv = tick_probe(probe);
        let mut current: Option<AgentCommitProbe> = None;
        let mut observed_head: Option<String> = None;
        match probe {
            Some(Ok(p)) => {
                let differs = match &self.commit_baseline {
                    Some(b) => !opt_string_eq(&b.head, &p.head),
                    None => false,
                };
                if differs && self.commit_head_observed.is_none() {
                    match &p.head {
                        Some(oid) => {
                            self.commit_head_observed = Some(oid.clone());
                            self.commit_head_observed_at = Some(now_ms);
                            self.state = ConnectivityState::CommitDetected { oid: oid.clone() };
                            if self.awaiting_completion {
                                observed_head = Some(oid.clone());
                            }
                        },
                        None => {},
                    }
                }
                current = Some(p);
            },
            _ => {},
        }
        assert(self@ == spec_observe(w0, pv, now_ms));
        assert(opt_probe_view(current) == pv);
        if marker_seen {
            let outcome = match self.classify_current(&current) {
                Some(o) => o,
                None => AgentCommitOutcome::Failed,
            };
            let finished = self.finish_commit(outcome);
            return CommitTick { observed_head, finished };
        }
        match completion {
            Some(result) => {
                let outcome = match self.classify_current(&current) {
                    Some(o) => o,
                    None => match result {
                        Ok(code) => AgentCommitOutcome::ExitedUnverified { code },
                        Err(_) => AgentCommitOutcome::ExitedUnverified { code: None },
                    },
                };
                let finished = self.finish_commit(outcome);
                return CommitTick { observed_head, finished };
            },
            None => {},
        }
        let timed_out = match (self.commit_head_observed_at, last_activity_ms) {
            (Some(seen_at), Some(active_at)) => now_ms.saturating_sub(seen_at) >= COMMIT_MARKER_TIMEOUT_MS
                && now_ms.saturating_sub(active_at) >= TERMINAL_QUIET_MS,
            _ => false,
        };
        if timed_out {
            match &self.commit_head_observed {
                Some(oid) => {
                    let outcome = AgentCommitOutcome::Committed { oid: oid.clone() };
                    let finished = self.finish_commit(outcome);
                    return CommitTick { observed_head, finished };
                },
                None => {},
            }
        }
        CommitTick { observed_head, finished: None }
    }

    /// Stop the session at the user's request.
    pub fn stop(&mut self) -> (r: StopEffect)
        ensures
            !spec_is_running(old(self)@) ==> r is NotRunning && final(self)@ == old(self)@,
            spec_is_running(old(self)@) && old(self).kind == AgentSessionKind::Commit ==> {
                &&& final(self)@ == spec_finish(old(self)@, CommitOutcomeView::Cancelled).0
                &&& match spec_finish(old(self)@, CommitOutcomeView::Cancelled).1 {
                    Some(fv) => r matches StopEffect::CommitCancelled(f) && opt_finish_view(Some(f))
                        == Some(fv),
                    None => r is NotRunning,
                }
            },
            spec_is_running(old(self)@) && old(self).kind == AgentSessionKind::Connectivity ==> {
                &&& r is Stopped
                &&& final(self)@ == (WindowView {
                    stop_requested: true,
                    state: StateView::Exited {
                        code: None,
                        response_received: old(self).response_received,
                    },
                    ..old(self)@
                })
            },
    {
        if !self.is_running() {
            return StopEffect::NotRunning;
        }
        if self.kind == AgentSessionKind::Commit {
            return match self.finish_commit(AgentCommitOutcome::Cancelled) {
                Some(f) => StopEffect::CommitCancelled(f),
                None => StopEffect::NotRunning,
            };
        }
        self.stop_requested = true;
        self.state = ConnectivityState::Exited { code: None, response_received: self.response_received };
        StopEffect::Stopped
    }
}


/// The exit detail a status line shows.
#[derive(Clone, Copy, Debug, PartialEq, Eq, Structural)]
pub enum ExitDetail {
    Code(i32),
    Unknown,
}

pub open spec fn exit_detail(code: Option<i32>) -> ExitDetail {
    match code {
        Some(c) => ExitDetail::Code(c),
        None => ExitDetail::Unknown,
    }
}

fn exit_detail_of(code: Option<i32>) -> (r: ExitDetail)
    ensures
        r == exit_detail(code),
{
    match code {
        Some(c) => ExitDetail::Code(c),
        None => ExitDetail::Unknown,
    }
}

/// The status line of a session window, as a localized message reference.
pub enum StatusLabel {
    /// The message `key` without arguments.
    Text { key: String },
    /// The message `key` with the one named argument `name` set to `value`.
    WithArg { key: String, name: String, value: String },
    /// The message `key` whose `code` argument is the exit code, or the
    /// `agent-test-exit-unknown` message when the code is unknown.
    WithExit { key: String, exit: ExitDetail },
    /// A connectivity test's exit line: the `agent-test-status-response`
    /// message when a response arrived, then `agent-test-status-exited`, then
    /// `agent-test-exit-code` with the code (or `agent-test-exit-unknown`),
    /// joined by " · ".
    TestExited { response_received: bool, exit: ExitDetail },
}

/// Mathematical form of a status line.
pub enum LabelView {
    Text { key: Seq<char> },
    WithArg { key: Seq<char>, name: Seq<char>, value: Seq<char> },
    WithExit { key: Seq<char>, exit: ExitDetail },
    TestExited { response_received: bool, exit: ExitDetail },
}

impl View for StatusLabel {
    type V = LabelView;

    open spec fn view(&self) -> LabelView {
        match self {
            StatusLabel::Text { key } => LabelView::Text { key: key@ },
            StatusLabel::WithArg { key, name, value } => LabelView::WithArg {
                key: key@,
                name: name@,
                value: value@,
            },
            StatusLabel::WithExit { key, exit } => LabelView::WithExit { key: key@, exit: *exit },
            StatusLabel::TestExited { response_received, exit } => LabelView::TestExited {
                response_received: *response_received,
                exit: *exit,
            },
        }
    }
}

/// The status line for a window of `kind` in `state`.
pub open spec fn spec_state_label(kind: AgentSessionKind, state: StateView) -> LabelView {
    if kind == AgentSessionKind::Commit {
        match state {
            StateView::Starting => LabelView::Text { key: "agent-commit-status-starting"@ },
            StateView::WaitingForResponse | StateView::ResponseReceived => LabelView::Text {
                key: "agent-commit-status-running"@,
            },
            StateView::CommitDetected { oid } => LabelView::WithArg {
                key: "agent-commit-status-detected"@,
                name: "oid"@,
                value: oid,
            },
            StateView::CommitCompleted { outcome } => match outcome {
                CommitOutcomeView::Committed { oid } => LabelView::WithArg {
                    key: "agent-commit-status-committed"@,
                    name: "oid"@,
                    value: oid,
                },
                CommitOutcomeView::NoChanges => LabelView::Text {
                    key: "agent-commit-status-no-changes"@,
                },
                CommitOutcomeView::Conflict => LabelView::Text {
                    key: "agent-commit-status-conflict"@,
                },
                CommitOutcomeView::Failed => LabelView::Text {
                    key: "agent-commit-status-failed-generic"@,
                },
                CommitOutcomeView::Cancelled => LabelView::Text {
                    key: "agent-commit-status-cancelled"@,
                },
                CommitOutcomeView::ExitedUnverified { code } => LabelView::WithExit {
                    key: "agent-commit-status-unverified"@,
                    exit: exit_detail(code),
                },
            },
            StateView::Exited { code, .. } => LabelView::WithExit {
                key: "agent-commit-status-exited"@,
                exit: exit_detail(code),
            },
            StateView::Failed(summary) => LabelView::WithArg {
                key: "agent-commit-status-failed"@,
                name: "error"@,
                value: summary,
            },
        }
    } else {
        match state {
            StateView::Starting => LabelView::Text { key: "agent-test-status-starting"@ },
            StateView::WaitingForResponse => LabelView::Text { key: "agent-test-status-waiting"@ },
            StateView::ResponseReceived => LabelView::Text { key: "agent-test-status-response"@ },
            StateView::CommitDetected { .. } | StateView::CommitCompleted { .. } => LabelView::Text {
                key: "agent-test-status-exited"@,
            },
            StateView::Exited { code, response_received } => LabelView::TestExited {
                response_received,
                exit: exit_detail(code),
            },
            StateView::Failed(summary) => LabelView::WithArg {
                key: "agent-test-status-failed"@,
                name: "error"@,
                value: summary,
            },
        }
    }
}

fn text_label(key: &str) -> (r: StatusLabel)
    ensures
        r@ == (LabelView::Text { key: key@ }),
{
    StatusLabel::Text { key: owned(key) }
}

fn arg_label(key: &str, name: &str, value: &String) -> (r: StatusLabel)
    ensures
        r@ == (LabelView::WithArg { key: key@, name: name@, value: value@ }),
{
    StatusLabel::WithArg { key: owned(key), name: owned(name), value: value.clone() }
}

impl AgentSessionWindow {
    /// The status line the window shows.
    pub fn state_label(&self) -> (r: StatusLabel)
        ensures
            r@ == spec_state_label(self.kind, self.state@),
    {
        if self.kind == AgentSessionKind::Commit {
            return match &self.state {
                ConnectivityState::Starting => text_label("agent-commit-status-starting"),
                ConnectivityState::WaitingForResponse
                | ConnectivityState::ResponseReceived => text_label("agent-commit-status-running"),
                ConnectivityState::CommitDetected { oid } => arg_label(
                    "agent-commit-status-detected",
                    "oid",
                    oid,
                ),
                ConnectivityState::CommitCompleted { outcome } => match outcome {
                    AgentCommitOutcome::Committed { oid } => arg_label(
                        "agent-commit-status-committed",
                        "oid",
                        oid,
                    ),
                    AgentCommitOutcome::NoChanges => text_label("agent-commit-status-no-changes"),
                    AgentCommitOutcome::Conflict => text_label("agent-commit-status-conflict"),
                    AgentCommitOutcome::Failed => text_label("agent-commit-status-failed-generic"),
                    AgentCommitOutcome::Cancelled => text_label("agent-commit-status-cancelled"),
                    AgentCommitOutcome::ExitedUnverified { code } => StatusLabel::WithExit {
                        key: owned("agent-commit-status-unverified"),
                        exit: exit_detail_of(*code),
                    },
                },
                ConnectivityState::Exited { code, .. } => StatusLabel::WithExit {
                    key: owned("agent-commit-status-exited"),
                    exit: exit_detail_of(*code),
                },
                ConnectivityState::Failed(summary) => arg_label(
                    "agent-commit-status-failed",
                    "error",
                    summary,
                ),
            };
        }
        match &self.state {
            ConnectivityState::Starting => text_label("agent-test-status-starting"),
            ConnectivityState::WaitingForResponse => text_label("agent-test-status-waiting"),
            ConnectivityState::ResponseReceived => text_label("agent-test-status-response"),
            ConnectivityState::CommitDetected { .. }
            | ConnectivityState::CommitCompleted { .. } => text_label("agent-test-status-exited"),
            ConnectivityState::Exited { code, response_received } => StatusLabel::TestExited {
                response_received: *response_received,
                exit: exit_detail_of(*code),
            },
            ConnectivityState::Failed(summary) => arg_label(
                "agent-test-status-failed",
                "error",
                summary,
            ),
        }
    }
}

/// The log name of a session kind.
pub open spec fn spec_session_kind_label(kind: AgentSessionKind) -> Seq<char> {
    match kind {
        AgentSessionKind::Connectivity => "connectivity test"@,
        AgentSessionKind::Commit => "commit session"@,
    }
}

/// The log name of a session kind.
pub fn session_kind_label(kind: AgentSessionKind) -> (r: &'static str)
    ensures
        r@ == spec_session_kind_label(kind),
{
    match kind {
        AgentSessionKind::Connectivity => "connectivity test",
        AgentSessionKind::Commit => "commit session",
    }
}

/// The log name of a commit outcome.
pub open spec fn spec_commit_outcome_label(o: CommitOutcomeView) -> Seq<char> {
    match o {
        CommitOutcomeView::Committed { .. } => "committed"@,
        CommitOutcomeView::NoChanges => "no-changes"@,
        CommitOutcomeView::Conflict => "conflict"@,
        CommitOutcomeView::Failed => "failed"@,
        CommitOutcomeView::Cancelled => "cancelled"@,
        CommitOutcomeView::ExitedUnverified { .. } => "exited-unverified"@,
    }
}

/// The log name of a commit outcome.
pub fn commit_outcome_label(outcome: &AgentCommitOutcome) -> (r: &'static str)
    ensures
        r@ == spec_commit_outcome_label(outcome@),
{
    match outcome {
        AgentCommitOutcome::Committed { .. } => "committed",
        AgentCommitOutcome::NoChanges => "no-changes",
        AgentCommitOutcome::Conflict => "conflict",
        AgentCommitOutcome::Failed => "failed",
        AgentCommitOutcome::Cancelled => "cancelled",
        AgentCommitOutcome::ExitedUnverified { .. } => "exited-unverified",
    }
}

/// The registry key of a profile's connectivity test window.
pub fn connectivity_key(profile_id: &str) -> (r: String)
    ensures
        r@ == "connectivity:"@ + profile_id@,
{
    let mut key = owned("connectivity:");
    key.append(profile_id);
    key
}

/// The registry key of a repository's commit session window.
pub fn commit_key(repo_path: &str) -> (r: String)
    ensures
        r@ == "commit:"@ + repo_path@,
{
    let mut key = owned("commit:");
    key.append(repo_path);
    key
}

/// The title of a session window for the profile named `profile_name`.
pub open spec fn spec_session_label(kind: AgentSessionKind, profile_name: Seq<char>) -> Seq<char> {
    profile_name + match kind {
        AgentSessionKind::Connectivity => " connectivity test"@,
        AgentSessionKind::Commit => " commit"@,
    }
}

impl AgentSessionWindow {
    /// The window's title.
    pub fn label(&self) -> (r: String)
        ensures
            r@ == spec_session_label(self.kind, self.profile_name@),
    {
        let mut label = self.profile_name.clone();
        match self.kind {
            AgentSessionKind::Connectivity => label.append(" connectivity test"),
            AgentSessionKind::Commit => label.append(" commit"),
        }
        label
    }
}

/// Hand out the next session identifier from `counter`: the counter's value,
/// but never 0; the counter then moves on by one, wrapping at the top.
pub fn next_session_id(counter: &mut u64) -> (r: u64)
    ensures
        r == (if *old(counter) == 0 { 1 } else { *old(counter) }),
        *final(counter) == (if *old(counter) == u64::MAX { 0 } else { (*old(counter) + 1) as u64 }),
{
    let current = *counter;
    *counter = current.wrapping_add(1);
    if current == 0 { 1 } else { current }
}

/// One open session window and the key it is registered under.
pub struct SessionEntry {
    pub key: String,
    pub window: AgentSessionWindow,
}

/// Whether an entry is running and, when a key is given, registered under it.
pub open spec fn entry_selected(e: SessionEntry, key: Option<Seq<char>>) -> bool {
    &&& spec_is_running(e.window@)
    &&& match key {
        Some(k) => e.key@ == k,
        None => true,
    }
}

/// The number of selected entries.
pub open spec fn count_selected(s: Seq<SessionEntry>, key: Option<Seq<char>>) -> nat
    decreases s.len(),
{
    if s.len() == 0 {
        0
    } else {
        count_selected(s.drop_last(), key) + if entry_selected(s.last(), key) {
            1nat
        } else {
            0nat
        }
    }
}

/// The titles of the selected entries, in order.
pub open spec fn selected_labels(s: Seq<SessionEntry>, key: Option<Seq<char>>) -> Seq<Seq<char>>
    decreases s.len(),
{
    if s.len() == 0 {
        seq![]
    } else {
        selected_labels(s.drop_last(), key) + if entry_selected(s.last(), key) {
            seq![spec_session_label(s.last().window.kind, s.last().window.profile_name@)]
        } else {
            seq![]
        }
    }
}

/// The positions of the selected entries, in order.
pub open spec fn selected_positions(s: Seq<SessionEntry>, key: Option<Seq<char>>) -> Seq<usize>
    decreases s.len(),
{
    if s.len() == 0 {
        seq![]
    } else {
        selected_positions(s.drop_last(), key) + if entry_selected(s.last(), key) {
            seq![(s.len() - 1) as usize]
        } else {
            seq![]
        }
    }
}

fn entry_is_selected(e: &SessionEntry, key: Option<&str>) -> (r: bool)
    ensures
        r == entry_selected(*e, crate::text::opt_str_view(key)),
{
    if !e.window.is_running() {
        return false;
    }
    match key {
        Some(k) => crate::text::str_eq(e.key.as_str(), k),
        None => true,
    }
}

fn count_entries(entries: &Vec<SessionEntry>, key: Option<&str>) -> (r: usize)
    ensures
        r == count_selected(entries@, crate::text::opt_str_view(key)),
{
    let ghost k = crate::text::opt_str_view(key);
    let mut n: usize = 0;
    for i in 0..entries.len()
        invariant
            n == count_selected(entries@.take(i as int), k),
            n <= i,
            k == crate::text::opt_str_view(key),
    {
        assert(entries@.take(i + 1).drop_last() =~= entries@.take(i as int));
        assert(entries@.take(i + 1).last() == entries@[i as int]);
        if entry_is_selected(&entries[i], key) {
            n = n + 1;
        }
    }
    assert(entries@.take(entries@.len() as int) =~= entries@);
    n
}

fn label_entries(entries: &Vec<SessionEntry>, key: Option<&str>) -> (r: Vec<String>)
    ensures
        crate::text::views(r@) == selected_labels(entries@, crate::text::opt_str_view(key)),
{
    let ghost k = crate::text::opt_str_view(key);
    let mut out: Vec<String> = Vec::new();
    for i in 0..entries.len()
        invariant
            crate::text::views(out@) == selected_labels(entries@.take(i as int), k),
            k == crate::text::opt_str_view(key),
    {
        assert(entries@.take(i + 1).drop_last() =~= entries@.take(i as int));
        assert(entries@.take(i + 1).last() == entries@[i as int]);
        if entry_is_selected(&entries[i], key) {
            let label = entries[i].window.label();
            let ghost before = out@;
            out.push(label);
            assert(crate::text::views(out@) =~= crate::text::views(before) + seq![label@]);
        }
    }
    assert(entries@.take(entries@.len() as int) =~= entries@);
    out
}

/// How many session windows are still running.
pub fn running_count(entries: &Vec<SessionEntry>) -> (r: usize)
    ensures
        r == count_selected(entries@, None),
{
    count_entries(entries, None)
}

/// The titles of the running session windows, in order.
pub fn running_labels(entries: &Vec<SessionEntry>) -> (r: Vec<String>)
    ensures
        crate::text::views(r@) == selected_labels(entries@, None),
{
    label_entries(entries, None)
}

/// How many commit sessions are running for the repository at `repo_path`.
pub fn running_for_repo(entries: &Vec<SessionEntry>, repo_path: &str) -> (r: usize)
    ensures
        r == count_selected(entries@, Some("commit:"@ + repo_path@)),
{
    let key = commit_key(repo_path);
    count_entries(entries, Some(key.as_str()))
}

/// The titles of the commit sessions running for the repository at `repo_path`.
pub fn running_labels_for_repo(entries: &Vec<SessionEntry>, repo_path: &str) -> (r: Vec<String>)
    ensures
        crate::text::views(r@) == selected_labels(entries@, Some("commit:"@ + repo_path@)),
{
    let key = commit_key(repo_path);
    label_entries(entries, Some(key.as_str()))
}

/// The positions of the commit sessions to stop for the repository at
/// `repo_path`: those registered under its key that are still running.
/// Stopping happened if and only if the result is not empty.
pub fn stop_for_repo(entries: &Vec<SessionEntry>, repo_path: &str) -> (r: Vec<usize>)
    ensures
        r@ == selected_positions(entries@, Some("commit:"@ + repo_path@)),
{
    let key = commit_key(repo_path);
    let ghost k = Some(key@);
    let mut out: Vec<usize> = Vec::new();
    for i in 0..entries.len()
        invariant
            out@ == selected_positions(entries@.take(i as int), k),
            key@ == "commit:"@ + repo_path@,
            k == Some(key@),
    {
        assert(entries@.take(i + 1).drop_last() =~= entries@.take(i as int));
        assert(entries@.take(i + 1).last() == entries@[i as int]);
        if entry_is_selected(&entries[i], Some(key.as_str())) {
            out.push(i);
        }
        assert(out@ =~= selected_positions(entries@.take(i + 1), k));
    }
    assert(entries@.take(entries@.len() as int) =~= entries@);
    out
}

/// Whether a session window registered under `key` is still running.
pub fn running_session_exists(entries: &Vec<SessionEntry>, key: &str) -> (r: bool)
    ensures
        r == (count_selected(entries@, Some(key@)) > 0),
{
    count_entries(entries, Some(key)) > 0
}

/// The position of the window of session `session_id`, the first if several.
pub fn session_position(entries: &Vec<SessionEntry>, session_id: u64) -> (r: Option<usize>)
    ensures
        match r {
            Some(i) => i < entries@.len() && entries@[i as int].window.session_id == Some(session_id)
                && forall|j: int| 0 <= j < i ==> #[trigger] entries@[j].window.session_id != Some(session_id),
            None => forall|j: int| 0 <= j < entries@.len() ==> #[trigger] entries@[j].window.session_id != Some(session_id),
        },
{
    for i in 0..entries.len()
        invariant
            forall|j: int| 0 <= j < i ==> #[trigger] entries@[j].window.session_id != Some(session_id),
    {
        if entries[i].window.session_id == Some(session_id) {
            return Some(i);
        }
    }
    None
}

/// A session's observed HEAD, once recorded, differs from its baseline HEAD.
pub open spec fn observation_wf(w: WindowView) -> bool {
    w.observed is Some ==> w.baseline is Some && w.baseline->0.head != w.observed
}

/// A commit session finishes at most once: after a finish, finishing again
/// changes nothing and reports nothing.
pub proof fn law_commit_finishes_once(w: WindowView, first: CommitOutcomeView, second: CommitOutcomeView)
    ensures
        spec_finish(spec_finish(w, first).0, second) == (spec_finish(w, first).0, None::<FinishView>),
{
}

/// A finished commit session is no longer running, and it reports its
/// outcome to a waiting tab exactly when one was waiting.
pub proof fn law_finished_session_stops(w: WindowView, outcome: CommitOutcomeView)
    requires
        !w.completed,
    ensures
        !spec_is_running(spec_finish(w, outcome).0),
        spec_finish(w, outcome).0.completed,
        !spec_finish(w, outcome).0.awaiting,
        spec_finish(w, outcome).1 == Some(
            FinishView {
                outcome,
                notify_workspace: w.awaiting,
                close_window: w.awaiting && outcome is Committed,
            },
        ),
{
}

/// Ticks after the end of a commit session change nothing and report nothing.
pub proof fn law_ticks_after_finish_are_ignored(
    w: WindowView,
    probe: Option<CommitProbeView>,
    marker_seen: bool,
    exited: Option<Option<i32>>,
    now: u64,
    last_activity: Option<u64>,
)
    requires
        w.completed,
    ensures
        spec_commit_tick(w, probe, marker_seen, exited, now, last_activity) == (
            w,
            None::<Seq<char>>,
            None::<FinishView>,
        ),
{
}

/// A commit tick keeps the observed HEAD distinct from the baseline, and a
/// commit it reports names a HEAD other than the baseline's: a changed HEAD
/// is the only evidence of a commit.
pub proof fn law_reported_commit_changed_head(
    w: WindowView,
    probe: Option<CommitProbeView>,
    marker_seen: bool,
    exited: Option<Option<i32>>,
    now: u64,
    last_activity: Option<u64>,
)
    requires
        observation_wf(w),
    ensures
        observation_wf(spec_commit_tick(w, probe, marker_seen, exited, now, last_activity).0),
        match spec_commit_tick(w, probe, marker_seen, exited, now, last_activity).2 {
            Some(f) => f.outcome is Committed ==> w.baseline is Some && w.baseline->0.head != Some(
                f.outcome->Committed_oid,
            ),
            None => true,
        },
{
}

} // verus!
