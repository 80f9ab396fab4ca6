//! Agent task sessions embedded in a repository tab: their titles, state,
//! status lines, and the tab's list of sessions.
use vstd::prelude::*;
use vstd::string::StringSliceAdditionalSpecFns;
use crate::extension_actions::{StatusText, StatusView, message, message1, msg, msg1};
use crate::text::{decimal, first_line, owned, spec_first_line, str_trim, trim, views};

verus! {

/// The longest session title, in characters, before it is cut.
pub const MAX_TITLE_CHARS: usize = 80;

/// A title cut to at most 80 characters, with an ellipsis when cut.
pub open spec fn spec_truncate_title(title: Seq<char>) -> Seq<char> {
    if title.len() > 80 {
        title.take(80).push('…')
    } else {
        title
    }
}

/// Cut a title to at most 80 characters, marking the cut with an ellipsis.
pub fn truncate_title(title: &str) -> (r: String)
    ensures
        r@ == spec_truncate_title(title@),
{
    let n = title.unicode_len();
    if n > MAX_TITLE_CHARS {
        let mut r = owned(title.substring_char(0, MAX_TITLE_CHARS));
        r.append("…");
        proof {
            reveal_strlit("…");
        }
        assert(r@ =~= title@.take(80).push('…'));
        r
    } else {
        owned(title)
    }
}

/// The title of a session started with `request`: its first line, trimmed
/// and cut, or the profile's name when that line is blank.
pub open spec fn spec_session_title(request: Seq<char>, profile_name: Seq<char>) -> Seq<char> {
    let line = trim(spec_first_line(request));
    if line.len() == 0 {
        profile_name
    } else {
        spec_truncate_title(line)
    }
}

/// The title of a session started with `request`.
pub fn session_title(request: &str, profile_name: &str) -> (r: String)
    ensures
        r@ == spec_session_title(request@, profile_name@),
{
    let line = str_trim(first_line(request));
    if line.unicode_len() == 0 {
        owned(profile_name)
    } else {
        truncate_title(line)
    }
}

/// The abbreviated form of a commit id: its first 7 bytes when they end on a
/// character boundary, else the whole id.
pub fn short_oid(oid: &str) -> (r: &str)
    ensures
        r.spec_bytes() == if vstd::utf8::is_char_boundary(oid.spec_bytes(), 7) {
            oid.spec_bytes().subrange(0, 7)
        } else {
            oid.spec_bytes()
        },
        r@ == short_oid_chars(oid@),
{
    if oid.is_char_boundary(7) {
        let (head, _) = oid.split_at(7);
        proof {
            vstd::utf8::encode_utf8_decode_utf8(head@);
        }
        head
    } else {
        oid
    }
}

/// The characters of the abbreviated commit id.
pub open spec fn short_oid_chars(oid: Seq<char>) -> Seq<char> {
    let bytes = vstd::utf8::encode_utf8(oid);
    if vstd::utf8::is_char_boundary(bytes, 7) {
        vstd::utf8::decode_utf8(bytes.subrange(0, 7))
    } else {
        oid
    }
}

/// What the user selected for review when asking an Agent for a task.
pub enum ReviewSelection {
    NoSelection,
    WorkingTreeFile { path: String },
    Commit { oid: String },
    CommitFile { oid: String, path: String },
    Comparison { base: String, target: String, path: Option<String> },
}

/// How the task composer describes the selection, `none_label` standing for
/// no selection.
pub open spec fn spec_selection_text(selection: ReviewSelection, none_label: Seq<char>) -> Seq<char> {
    match selection {
        ReviewSelection::NoSelection => none_label,
        ReviewSelection::WorkingTreeFile { path } => "working tree: "@ + path@,
        ReviewSelection::Commit { oid } => "commit: "@ + short_oid_chars(oid@),
        ReviewSelection::CommitFile { oid, path } => "commit "@ + short_oid_chars(oid@) + ": "@ + path@,
        ReviewSelection::Comparison { base, target, path } => "comparison "@ + base@ + " \u{2192} "@ + target@
            + match path {
            Some(p) => ": "@ + p@,
            None => Seq::empty(),
        },
    }
}

/// The context line of the task composer: the selection, then the branch
/// unless it is blank.
pub open spec fn spec_context_summary(selection: ReviewSelection, branch: Seq<char>, none_label: Seq<char>) -> Seq<char> {
    if trim(branch).len() == 0 {
        spec_selection_text(selection, none_label)
    } else {
        spec_selection_text(selection, none_label) + " \u{b7} branch: "@ + branch
    }
}

fn selection_text(selection: &ReviewSelection, none_label: &str) -> (r: String)
    ensures
        r@ == spec_selection_text(*selection, none_label@),
{
    match selection {
        ReviewSelection::NoSelection => owned(none_label),
        ReviewSelection::WorkingTreeFile { path } => {
            let mut s = owned("working tree: ");
            s.append(path.as_str());
            s
        },
        ReviewSelection::Commit { oid } => {
            let mut s = owned("commit: ");
            s.append(short_oid(oid.as_str()));
            s
        },
        ReviewSelection::CommitFile { oid, path } => {
            let mut s = owned("commit ");
            s.append(short_oid(oid.as_str()));
            s.append(": ");
            s.append(path.as_str());
            s
        },
        ReviewSelection::Comparison { base, target, path } => {
            let mut s = owned("comparison ");
            s.append(base.as_str());
            s.append(" \u{2192} ");
            s.append(target.as_str());
            match path {
                Some(p) => {
                    s.append(": ");
                    s.append(p.as_str());
                },
                None => {
                    assert(s@ + Seq::<char>::empty() =~= s@);
                },
            }
            s
        },
    }
}

/// The context line of the task composer.
pub fn context_summary(selection: &ReviewSelection, branch: &str, none_label: &str) -> (r: String)
    ensures
        r@ == spec_context_summary(*selection, branch@, none_label@),
{
    let mut s = selection_text(selection, none_label);
    if crate::text::chars_of(str_trim(branch)).len() > 0 {
        s.append(" \u{b7} branch: ");
        s.append(branch);
    }
    s
}

/// The state of an embedded Agent session.
pub enum AgentSessionState {
    Starting,
    /// Running; the terminal was last active at this time (milliseconds).
    Running { last_activity_ms: u64 },
    Exited { code: Option<i32> },
    Failed { summary: String },
}

/// Mathematical form of a session state.
pub enum SessionStateView {
    Starting,
    Running { last_activity_ms: u64 },
    Exited { code: Option<i32> },
    Failed { summary: Seq<char> },
}

impl View for AgentSessionState {
    type V = SessionStateView;

    open spec fn view(&self) -> SessionStateView {
        match self {
            AgentSessionState::Starting => SessionStateView::Starting,
            AgentSessionState::Running { last_activity_ms } => SessionStateView::Running {
                last_activity_ms: *last_activity_ms,
            },
            AgentSessionState::Exited { code } => SessionStateView::Exited { code: *code },
            AgentSessionState::Failed { summary } => SessionStateView::Failed { summary: summary@ },
        }
    }
}

/// One Agent session of a repository tab.
pub struct AgentSession {
    id: u64,
    title: String,
    profile_name: String,
    state: AgentSessionState,
}

/// Mathematical form of a session.
pub struct AgentSessionView {
    pub id: u64,
    pub title: Seq<char>,
    pub profile_name: Seq<char>,
    pub state: SessionStateView,
}

impl View for AgentSession {
    type V = AgentSessionView;

    closed spec fn view(&self) -> AgentSessionView {
        AgentSessionView {
            id: self.id,
            title: self.title@,
            profile_name: self.profile_name@,
            state: self.state@,
        }
    }
}

pub open spec fn spec_is_running(s: SessionStateView) -> bool {
    s is Starting || s is Running
}

/// One tick of a session's terminal monitor: the terminal's exit if it
/// exited, else its last activity.
pub open spec fn spec_monitor_tick(
    s: SessionStateView,
    completion: Option<Result<Option<i32>, Seq<char>>>,
    last_activity_ms: u64,
) -> SessionStateView {
    match completion {
        Some(Ok(code)) => SessionStateView::Exited { code },
        Some(Err(summary)) => SessionStateView::Failed { summary },
        None => match s {
            SessionStateView::Starting => SessionStateView::Running { last_activity_ms },
            SessionStateView::Running { .. } => SessionStateView::Running { last_activity_ms },
            other => other,
        },
    }
}

impl AgentSession {
    /// A session `id` of the profile named `profile_name`, started with
    /// `request`.
    pub fn new(id: u64, profile_name: String, request: &str) -> (r: AgentSession)
        ensures
            r@ == (AgentSessionView {
                id,
                title: spec_session_title(request@, profile_name@),
                profile_name: profile_name@,
                state: SessionStateView::Starting,
            }),
    {
        let title = session_title(request, profile_name.as_str());
        AgentSession { id, title, profile_name, state: AgentSessionState::Starting }
    }

    pub fn id(&self) -> (r: u64)
        ensures
            r == self@.id,
    {
        self.id
    }

    /// Whether the session is still running.
    pub fn is_running(&self) -> (r: bool)
        ensures
            r == spec_is_running(self@.state),
    {
        match self.state {
            AgentSessionState::Starting | AgentSessionState::Running { .. } => true,
            _ => false,
        }
    }

    /// Stop a running session; whether its terminal must be shut down.
    pub fn terminate(&mut self) -> (r: bool)
        ensures
            r == spec_is_running(old(self)@.state),
            final(self)@ == if r {
                AgentSessionView { state: SessionStateView::Exited { code: None }, ..old(self)@ }
            } else {
                old(self)@
            },
    {
        if self.is_running() {
            self.state = AgentSessionState::Exited { code: None };
            true
        } else {
            false
        }
    }

    /// One tick of the terminal monitor; whether the session just ended.
    pub fn monitor_tick(&mut self, completion: Option<Result<Option<i32>, String>>, last_activity_ms: u64) -> (r: bool)
        ensures
            r == completion is Some,
            final(self)@ == (AgentSessionView {
                state: spec_monitor_tick(
                    old(self)@.state,
                    match completion {
                        Some(Ok(c)) => Some(Ok(c)),
                        Some(Err(e)) => Some(Err(e@)),
                        None => None,
                    },
                    last_activity_ms,
                ),
                ..old(self)@
            }),
    {
        match completion {
            Some(Ok(code)) => {
                self.state = AgentSessionState::Exited { code };
                true
            },
            Some(Err(summary)) => {
                self.state = AgentSessionState::Failed { summary };
                true
            },
            None => {
                match self.state {
                    AgentSessionState::Starting | AgentSessionState::Running { .. } => {
                        self.state = AgentSessionState::Running { last_activity_ms };
                    },
                    _ => {},
                }
                false
            },
        }
    }

    /// The session's tab label: profile name, a middle dot, and title.
    pub fn tab_label(&self) -> (r: String)
        ensures
            r@ == self@.profile_name + " · "@ + self@.title,
    {
        let mut r = self.profile_name.clone();
        r.append(" · ");
        r.append(self.title.as_str());
        r
    }

    /// The session's status line.
    pub fn state_label(&self) -> (r: StatusText)
        ensures
            r@ == spec_state_label(self@.state),
    {
        match &self.state {
            AgentSessionState::Starting => message("agent-status-starting"),
            AgentSessionState::Running { .. } => message("agent-status-running"),
            AgentSessionState::Exited { code: Some(code) } => message1("agent-status-exited", "code", int_string(*code)),
            AgentSessionState::Exited { code: None } => message("agent-status-exited-unknown"),
            AgentSessionState::Failed { summary } => message1("agent-status-failed", "error", summary.clone()),
        }
    }

    /// How recently the session's terminal was active, at time `now_ms`.
    pub fn recent_activity_label(&self, now_ms: u64) -> (r: StatusText)
        ensures
            r@ == spec_activity_label(self@.state, now_ms),
    {
        match &self.state {
            AgentSessionState::Starting => message("agent-status-starting"),
            AgentSessionState::Running { last_activity_ms } => {
                let elapsed = now_ms.saturating_sub(*last_activity_ms) / 1000;
                if elapsed == 0 {
                    message("agent-activity-now")
                } else {
                    let mut s = String::new();
                    crate::text::push_decimal(&mut s, elapsed);
                    assert(s@ =~= decimal(elapsed as nat));
                    message1("agent-activity-seconds", "seconds", s)
                }
            },
            _ => message("agent-activity-finished"),
        }
    }
}

/// The decimal form of a signed integer.
pub open spec fn int_decimal(n: i32) -> Seq<char> {
    if n < 0 {
        seq!['-'] + decimal((-(n as int)) as nat)
    } else {
        decimal(n as nat)
    }
}

fn int_string(n: i32) -> (r: String)
    ensures
        r@ == int_decimal(n),
{
    let mut s = String::new();
    if n < 0 {
        s.append("-");
        let magnitude: u64 = (0i64 - n as i64) as u64;
        crate::text::push_decimal(&mut s, magnitude);
        proof {
            reveal_strlit("-");
        }
        assert(s@ =~= seq!['-'] + decimal((-(n as int)) as nat));
    } else {
        crate::text::push_decimal(&mut s, n as u64);
        assert(s@ =~= decimal(n as nat));
    }
    s
}

/// The status line of a session in state `s`.
pub open spec fn spec_state_label(s: SessionStateView) -> StatusView {
    match s {
        SessionStateView::Starting => msg("agent-status-starting"@),
        SessionStateView::Running { .. } => msg("agent-status-running"@),
        SessionStateView::Exited { code: Some(c) } => msg1("agent-status-exited"@, "code"@, int_decimal(c)),
        SessionStateView::Exited { code: None } => msg("agent-status-exited-unknown"@),
        SessionStateView::Failed { summary } => msg1("agent-status-failed"@, "error"@, summary),
    }
}

/// The activity line of a session in state `s` at time `now_ms`: whole
/// seconds since the terminal was last active.
pub open spec fn spec_activity_label(s: SessionStateView, now_ms: u64) -> StatusView {
    match s {
        SessionStateView::Starting => msg("agent-status-starting"@),
        SessionStateView::Running { last_activity_ms } => {
            let elapsed = if now_ms >= last_activity_ms {
                (now_ms - last_activity_ms) / 1000
            } else {
                0
            };
            if elapsed == 0 {
                msg("agent-activity-now"@)
            } else {
                msg1("agent-activity-seconds"@, "seconds"@, decimal(elapsed as nat))
            }
        },
        _ => msg("agent-activity-finished"@),
    }
}

pub open spec fn session_views(v: Seq<AgentSession>) -> Seq<AgentSessionView> {
    v.map_values(|s: AgentSession| s@)
}

/// The Agent sessions of a repository tab.
pub struct AgentSessionList {
    sessions: Vec<AgentSession>,
    active: Option<u64>,
    next_id: u64,
}

/// Mathematical form of a session list.
pub struct SessionListView {
    pub sessions: Seq<AgentSessionView>,
    pub active: Option<u64>,
    pub next_id: u64,
}

impl View for AgentSessionList {
    type V = SessionListView;

    closed spec fn view(&self) -> SessionListView {
        SessionListView { sessions: session_views(self.sessions@), active: self.active, next_id: self.next_id }
    }
}

/// What asking to close a session led to.
#[derive(Clone, Copy, Debug, PartialEq, Eq, Structural)]
pub enum CloseSession {
    /// No such session.
    Unknown,
    /// The session still runs: ask the user first.
    NeedsConfirmation,
    /// The session was removed.
    Removed,
}

/// The position of the first session `id`.
pub open spec fn session_index(s: Seq<AgentSessionView>, id: u64) -> Option<int> {
    if exists|i: int| 0 <= i < s.len() && s[i].id == id {
        Some(choose|i: int| 0 <= i < s.len() && s[i].id == id && forall|j: int| 0 <= j < i ==> s[j].id != id)
    } else {
        None
    }
}

/// The list after removing session `id` (its terminal stopped); the active
/// session moves to the last one left when it was the removed one.
pub open spec fn spec_remove_session(v: SessionListView, id: u64) -> SessionListView {
    let sessions = match session_index(v.sessions, id) {
        Some(i) => v.sessions.remove(i),
        None => v.sessions,
    };
    SessionListView {
        sessions,
        active: if v.active == Some(id) {
            if sessions.len() > 0 {
                Some(sessions.last().id)
            } else {
                None
            }
        } else {
            v.active
        },
        next_id: v.next_id,
    }
}

pub open spec fn running_views(s: Seq<AgentSessionView>) -> Seq<AgentSessionView> {
    s.filter(|x: AgentSessionView| spec_is_running(x.state))
}

impl AgentSessionList {
    /// No session yet; the first session gets identifier 1.
    pub fn new() -> (r: AgentSessionList)
        ensures
            r@ == (SessionListView { sessions: seq![], active: None, next_id: 1 }),
    {
        let r = AgentSessionList { sessions: Vec::new(), active: None, next_id: 1 };
        assert(session_views(r.sessions@) =~= Seq::<AgentSessionView>::empty());
        r
    }

    /// The sessions, in order.
    pub fn sessions(&self) -> (r: &Vec<AgentSession>)
        ensures
            session_views(r@) == self@.sessions,
    {
        &self.sessions
    }

    /// The session shown.
    pub fn active(&self) -> (r: Option<u64>)
        ensures
            r == self@.active,
    {
        self.active
    }

    /// Whether any session still runs (a new one then shares the working
    /// tree, which the user must confirm).
    pub fn any_running(&self) -> (r: bool)
        ensures
            r == exists|i: int| 0 <= i < self@.sessions.len() && spec_is_running(#[trigger] self@.sessions[i].state),
    {
        for i in 0..self.sessions.len()
            invariant
                forall|j: int| 0 <= j < i ==> !spec_is_running(#[trigger] session_views(self.sessions@)[j].state),
        {
            if self.sessions[i].is_running() {
                assert(session_views(self.sessions@)[i as int] == self.sessions@[i as int]@);
                return true;
            }
        }
        false
    }

    /// Hand out the identifier for a new session.
    pub fn allocate_id(&mut self) -> (r: u64)
        ensures
            r == old(self)@.next_id,
            final(self)@ == (SessionListView {
                next_id: crate::repo_events::spec_next_request_id(old(self)@.next_id),
                ..old(self)@
            }),
    {
        let id = self.next_id;
        self.next_id = crate::repo_events::next_request_id(self.next_id);
        id
    }

    /// Add a started session and show it.
    pub fn push(&mut self, session: AgentSession)
        ensures
            final(self)@ == (SessionListView {
                sessions: old(self)@.sessions.push(session@),
                active: Some(session@.id),
                ..old(self)@
            }),
    {
        let id = session.id;
        self.sessions.push(session);
        self.active = Some(id);
        assert(session_views(self.sessions@) =~= old(self)@.sessions.push(self.sessions@.last()@));
    }

    fn find_session(&self, id: u64) -> (r: Option<usize>)
        ensures
            match r {
                Some(i) => i < self@.sessions.len() && session_index(self@.sessions, id) == Some(i as int),
                None => session_index(self@.sessions, id) is None,
            },
    {
        let ghost sv = self@.sessions;
        for i in 0..self.sessions.len()
            invariant
                sv == session_views(self.sessions@),
                forall|j: int| 0 <= j < i ==> sv[j].id != id,
        {
            if self.sessions[i].id == id {
                assert(sv[i as int].id == id);
                assert(session_index(sv, id) == Some(i as int)) by {
                    let w = choose|w: int| 0 <= w < sv.len() && sv[w].id == id && forall|j: int| 0 <= j < w ==> sv[j].id != id;
                    if w < i {
                        assert(sv[w].id != id);
                    } else if w > i {
                        assert(sv[i as int].id != id);
                    }
                }
                return Some(i);
            }
        }
        None
    }

    /// Remove session `id`, stopping it; whether its terminal must be shut
    /// down.
    pub fn remove_session(&mut self, id: u64) -> (r: bool)
        ensures
            final(self)@ == spec_remove_session(old(self)@, id),
            r == match session_index(old(self)@.sessions, id) {
                Some(i) => spec_is_running(old(self)@.sessions[i].state),
                None => false,
            },
    {
        let ghost sv = self@.sessions;
        let stop = match self.find_session(id) {
            Some(i) => {
                let mut session = self.sessions.remove(i);
                assert(session@ == sv[i as int]);
                let stop = session.terminate();
                assert(session_views(self.sessions@) =~= sv.remove(i as int));
                stop
            },
            None => false,
        };
        if self.active == Some(id) {
            self.active = if self.sessions.len() > 0 {
                let last = self.sessions.len() - 1;
                assert(session_views(self.sessions@).last() == self.sessions@[last as int]@);
                Some(self.sessions[last].id)
            } else {
                None
            };
        }
        stop
    }

    /// Ask to close session `id`: a running session needs confirmation, a
    /// finished one is removed at once.
    pub fn request_close(&mut self, id: u64) -> (r: CloseSession)
        ensures
            match session_index(old(self)@.sessions, id) {
                None => r == CloseSession::Unknown && final(self)@ == old(self)@,
                Some(i) => if spec_is_running(old(self)@.sessions[i].state) {
                    r == CloseSession::NeedsConfirmation && final(self)@ == old(self)@
                } else {
                    r == CloseSession::Removed && final(self)@ == spec_remove_session(old(self)@, id)
                },
            },
    {
        match self.find_session(id) {
            Some(i) => {
                assert(self@.sessions[i as int] == self.sessions@[i as int]@);
                if self.sessions[i].is_running() {
                    CloseSession::NeedsConfirmation
                } else {
                    self.remove_session(id);
                    CloseSession::Removed
                }
            },
            None => CloseSession::Unknown,
        }
    }

    /// Stop every session; how many terminals must be shut down.
    pub fn terminate_all(&mut self) -> (r: usize)
        ensures
            final(self)@.active == old(self)@.active,
            final(self)@.next_id == old(self)@.next_id,
            final(self)@.sessions.len() == old(self)@.sessions.len(),
            forall|i: int| 0 <= i < old(self)@.sessions.len() ==> !spec_is_running(#[trigger] final(self)@.sessions[i].state)
                && final(self)@.sessions[i].id == old(self)@.sessions[i].id,
    {
        let ghost sv = self@.sessions;
        let n = self.sessions.len();
        let mut stopped: usize = 0;
        for i in 0..n
            invariant
                n == sv.len(),
                self.sessions@.len() == n,
                self.active == old(self).active,
                self.next_id == old(self).next_id,
                stopped <= i,
                forall|j: int| 0 <= j < i ==> !spec_is_running(#[trigger] self.sessions@[j]@.state)
                    && self.sessions@[j]@.id == sv[j].id,
                forall|j: int| i <= j < n ==> #[trigger] self.sessions@[j]@ == sv[j],
        {
            let ghost before = self.sessions@;
            let mut s = self.sessions.remove(i);
            if s.terminate() {
                stopped += 1;
            }
            self.sessions.insert(i, s);
            assert forall|j: int| 0 <= j < n && j != i implies self.sessions@[j] == before[j] by {}
        }
        assert forall|i: int| 0 <= i < n implies !spec_is_running(#[trigger] self@.sessions[i].state)
            && self@.sessions[i].id == sv[i] .id by {
            assert(self@.sessions[i] == self.sessions@[i]@);
        }
        stopped
    }

    /// How many sessions still run.
    pub fn running_count(&self) -> (r: usize)
        ensures
            r == running_views(self@.sessions).len(),
    {
        let ghost sv = self@.sessions;
        let mut n: usize = 0;
        for i in 0..self.sessions.len()
            invariant
                sv == session_views(self.sessions@),
                n == running_views(sv.take(i as int)).len(),
                n <= i,
        {
            assert(sv.take(i + 1).drop_last() =~= sv.take(i as int));
            assert(sv.take(i + 1).last() == self.sessions@[i as int]@);
            proof {
                reveal(Seq::filter);
            }
            if self.sessions[i].is_running() {
                n += 1;
            }
        }
        assert(sv.take(sv.len() as int) =~= sv);
        n
    }

    /// The tab labels of the sessions that still run, in order.
    pub fn running_labels(&self) -> (r: Vec<String>)
        ensures
            views(r@) == running_views(self@.sessions).map_values(|x: AgentSessionView| x.profile_name + " · "@ + x.title),
    {
        let ghost sv = self@.sessions;
        let mut out: Vec<String> = Vec::new();
        for i in 0..self.sessions.len()
            invariant
                sv == session_views(self.sessions@),
                views(out@) == running_views(sv.take(i as int)).map_values(
                    |x: AgentSessionView| x.profile_name + " · "@ + x.title,
                ),
        {
            assert(sv.take(i + 1).drop_last() =~= sv.take(i as int));
            assert(sv.take(i + 1).last() == self.sessions@[i as int]@);
            proof {
                reveal(Seq::filter);
            }
            if self.sessions[i].is_running() {
                let ghost before = views(out@);
                let label = self.sessions[i].tab_label();
                out.push(label);
                let ghost x = self.sessions@[i as int]@;
                assert(running_views(sv.take(i + 1)) == running_views(sv.take(i as int)).push(x));
                assert(views(out@) =~= before.push(x.profile_name + " · "@ + x.title));
                assert(running_views(sv.take(i + 1)).map_values(|y: AgentSessionView| y.profile_name + " · "@ + y.title)
                    =~= running_views(sv.take(i as int)).map_values(
                    |y: AgentSessionView| y.profile_name + " · "@ + y.title,
                ).push(x.profile_name + " · "@ + x.title));
            } else {
                assert(running_views(sv.take(i + 1)) == running_views(sv.take(i as int)));
            }
        }
        assert(sv.take(sv.len() as int) =~= sv);
        out
    }
}

} // verus!
