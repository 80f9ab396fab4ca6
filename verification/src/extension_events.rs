//! Repository events for extensions: what changed between two samples of
//! the open repositories, which extension triggers receive an event, how
//! events are debounced per trigger, and when interval schedules fire.
//!
//! Times are milliseconds: `now_ms` on a monotonic clock, event times
//! (`occurred_at`) in wall-clock milliseconds. Interval schedules compare
//! wall-clock times exactly, in nanoseconds (`_ns`).
use vstd::prelude::*;
use crate::tabs::TabId;
use crate::keyed::KeyedMap;
use crate::text::{opt_view, opt_string_eq, opt_string_clone, clone_strings, views, str_eq, owned};

verus! {

/// How long an extension's claim to have caused a repository change is kept
/// while the repository state catches up.
pub const EXTENSION_ORIGIN_TIMEOUT_MS: u64 = 30000;

/// The observable state of one open repository.
pub struct RepositorySnapshot {
    pub tab_id: TabId,
    pub path: String,
    pub branch: Option<String>,
    pub head: Option<String>,
    pub upstream: Option<String>,
    pub dirty: bool,
    pub conflicts: bool,
    pub busy: bool,
    pub ahead: u32,
    pub behind: u32,
    pub remotes: Vec<String>,
}

/// Mathematical form of a repository snapshot.
pub struct SnapshotView {
    pub tab_id: TabId,
    pub path: Seq<char>,
    pub branch: Option<Seq<char>>,
    pub head: Option<Seq<char>>,
    pub upstream: Option<Seq<char>>,
    pub dirty: bool,
    pub conflicts: bool,
    pub busy: bool,
    pub ahead: u32,
    pub behind: u32,
    pub remotes: Seq<Seq<char>>,
}

impl View for RepositorySnapshot {
    type V = SnapshotView;

    open spec fn view(&self) -> SnapshotView {
        SnapshotView {
            tab_id: self.tab_id,
            path: self.path@,
            branch: opt_view(self.branch),
            head: opt_view(self.head),
            upstream: opt_view(self.upstream),
            dirty: self.dirty,
            conflicts: self.conflicts,
            busy: self.busy,
            ahead: self.ahead,
            behind: self.behind,
            remotes: views(self.remotes@),
        }
    }
}

pub open spec fn snapshot_views(v: Seq<RepositorySnapshot>) -> Seq<SnapshotView> {
    v.map_values(|s: RepositorySnapshot| s@)
}

pub open spec fn opt_snapshot_view(o: Option<RepositorySnapshot>) -> Option<SnapshotView> {
    match o {
        Some(s) => Some(s@),
        None => None,
    }
}

impl RepositorySnapshot {
    /// An equal copy of this snapshot.
    pub fn duplicate(&self) -> (r: RepositorySnapshot)
        ensures
            r@ == self@,
    {
        RepositorySnapshot {
            tab_id: self.tab_id,
            path: self.path.clone(),
            branch: opt_string_clone(&self.branch),
            head: opt_string_clone(&self.head),
            upstream: opt_string_clone(&self.upstream),
            dirty: self.dirty,
            conflicts: self.conflicts,
            busy: self.busy,
            ahead: self.ahead,
            behind: self.behind,
            remotes: clone_strings(&self.remotes),
        }
    }
}

/// Whether the state extensions observe differs between two samples of a
/// repository (its path is its identity, not its state).
pub open spec fn spec_state_changed(a: SnapshotView, b: SnapshotView) -> bool {
    ||| a.branch != b.branch
    ||| a.head != b.head
    ||| a.upstream != b.upstream
    ||| a.dirty != b.dirty
    ||| a.conflicts != b.conflicts
    ||| a.busy != b.busy
    ||| a.ahead != b.ahead
    ||| a.behind != b.behind
    ||| a.remotes != b.remotes
}

/// A change is any difference but identity: two samples count as a state
/// change exactly when they differ once the second is given the first's
/// tab and path, so every observed field (the ahead and behind counts, the
/// remotes, HEAD, ...) counts.
pub proof fn law_state_change_is_any_difference(a: SnapshotView, b: SnapshotView)
    ensures
        spec_state_changed(a, b) == (a != SnapshotView { tab_id: a.tab_id, path: a.path, ..b }),
{
    let c = SnapshotView { tab_id: a.tab_id, path: a.path, ..b };
    if !spec_state_changed(a, b) {
        assert(a.remotes =~= c.remotes);
        assert(a == c);
    }
}

fn strings_eq(a: &Vec<String>, b: &Vec<String>) -> (r: bool)
    ensures
        r == (views(a@) == views(b@)),
{
    if a.len() != b.len() {
        assert(views(a@).len() != views(b@).len());
        return false;
    }
    for i in 0..a.len()
        invariant
            a@.len() == b@.len(),
            forall|j: int| 0 <= j < i ==> a@[j]@ == b@[j]@,
    {
        if !a[i].eq(&b[i]) {
            assert(views(a@)[i as int] != views(b@)[i as int]);
            return false;
        }
    }
    assert(views(a@) =~= views(b@)) by {
        assert forall|j: int| 0 <= j < a@.len() implies views(a@)[j] == views(b@)[j] by {
            assert(a@[j]@ == b@[j]@);
        }
    }
    true
}

/// Whether the observed state of a repository changed between two samples.
pub fn repository_state_changed(previous: &RepositorySnapshot, current: &RepositorySnapshot) -> (r: bool)
    ensures
        r == spec_state_changed(previous@, current@),
{
    !opt_string_eq(&previous.branch, &current.branch) || !opt_string_eq(&previous.head, &current.head)
        || !opt_string_eq(&previous.upstream, &current.upstream) || previous.dirty != current.dirty
        || previous.conflicts != current.conflicts || previous.busy != current.busy || previous.ahead
        != current.ahead || previous.behind != current.behind || !strings_eq(
        &previous.remotes,
        &current.remotes,
    )
}

/// Snapshots indexed by tab: identifiers strictly increase.
pub open spec fn indexed(s: Seq<SnapshotView>) -> bool {
    forall|a: int, b: int| 0 <= a < b < s.len() ==> #[trigger] s[a].tab_id < #[trigger] s[b].tab_id
}

/// Whether a sequence of snapshots holds one of tab `id`.
pub open spec fn has_tab(s: Seq<SnapshotView>, id: TabId) -> bool {
    exists|k: int| 0 <= k < s.len() && #[trigger] s[k].tab_id == id
}

/// The last snapshot of tab `id` in a sequence.
pub open spec fn last_of_tab(s: Seq<SnapshotView>, id: TabId) -> Option<SnapshotView>
    decreases s.len(),
{
    if s.len() == 0 {
        None
    } else if s.last().tab_id == id {
        Some(s.last())
    } else {
        last_of_tab(s.drop_last(), id)
    }
}

/// `m` indexes `s` by tab: ordered by identifier, one entry per tab, each
/// the last snapshot of its tab in `s`.
pub open spec fn index_of_samples(m: Seq<SnapshotView>, s: Seq<SnapshotView>) -> bool {
    &&& indexed(m)
    &&& forall|id: TabId| #[trigger] last_of_tab(s, id) == last_of_tab(m, id)
}

proof fn lemma_last_of_tab_some(s: Seq<SnapshotView>, id: TabId)
    ensures
        last_of_tab(s, id) is Some <==> has_tab(s, id),
        last_of_tab(s, id) matches Some(x) ==> x.tab_id == id,
    decreases s.len(),
{
    if s.len() > 0 {
        lemma_last_of_tab_some(s.drop_last(), id);
        if has_tab(s, id) {
            let k = choose|k: int| 0 <= k < s.len() && #[trigger] s[k].tab_id == id;
            if k < s.len() - 1 {
                assert(s.drop_last()[k].tab_id == id);
            }
        }
        if has_tab(s.drop_last(), id) {
            let k = choose|k: int| 0 <= k < s.drop_last().len() && #[trigger] s.drop_last()[k].tab_id == id;
            assert(s[k].tab_id == id);
        }
        if s.last().tab_id == id {
            assert(s[s.len() - 1].tab_id == id);
        }
    }
}

/// In an indexed sequence, the entry of a tab is the one at its position.
proof fn lemma_indexed_lookup(m: Seq<SnapshotView>, k: int)
    requires
        indexed(m),
        0 <= k < m.len(),
    ensures
        last_of_tab(m, m[k].tab_id) == Some(m[k]),
    decreases m.len(),
{
    if k < m.len() - 1 {
        assert(m.drop_last()[k] == m[k]);
        assert(m[k].tab_id < m[m.len() - 1].tab_id);
        lemma_indexed_lookup(m.drop_last(), k);
    }
}

/// Lookups in an indexed sequence determine it.
proof fn lemma_indexed_by_lookup(m: Seq<SnapshotView>, id: TabId)
    requires
        indexed(m),
    ensures
        match last_of_tab(m, id) {
            Some(x) => exists|k: int| 0 <= k < m.len() && #[trigger] m[k] == x && x.tab_id == id,
            None => !has_tab(m, id),
        },
{
    lemma_last_of_tab_some(m, id);
    if has_tab(m, id) {
        let k = choose|k: int| 0 <= k < m.len() && #[trigger] m[k].tab_id == id;
        lemma_indexed_lookup(m, k);
        assert(m[k] == m[k]);
    }
}

/// Record `snap` in an indexed sequence, replacing the entry of its tab.
fn insert_indexed(m: &mut Vec<RepositorySnapshot>, snap: RepositorySnapshot)
    requires
        indexed(snapshot_views(old(m)@)),
    ensures
        indexed(snapshot_views(final(m)@)),
        forall|id: TabId|
            #[trigger] last_of_tab(snapshot_views(final(m)@), id) == if id == snap.tab_id {
                Some(snap@)
            } else {
                last_of_tab(snapshot_views(old(m)@), id)
            },
{
    let ghost before = snapshot_views(m@);
    let mut p: usize = 0;
    while p < m.len() && m[p].tab_id < snap.tab_id
        invariant
            p <= m@.len(),
            before == snapshot_views(m@),
            forall|k: int| 0 <= k < p ==> #[trigger] before[k].tab_id < snap.tab_id,
        decreases m@.len() - p,
    {
        p += 1;
    }
    let replace = p < m.len() && m[p].tab_id == snap.tab_id;
    let ghost sv = snap@;
    if replace {
        m.remove(p);
    }
    m.insert(p, snap);
    proof {
        let after = snapshot_views(m@);
        if replace {
            assert(after =~= before.update(p as int, sv));
        } else {
            assert(after =~= before.insert(p as int, sv));
        }
        assert forall|a: int, b: int| 0 <= a < b < after.len() implies #[trigger] after[a].tab_id
            < #[trigger] after[b].tab_id by {
            if replace {
                if a == p {
                    assert(before[b].tab_id > before[a].tab_id);
                } else if b == p {
                    assert(before[a].tab_id < snap.tab_id);
                }
            } else {
                if a < p && b == p {
                } else if a == p && b > p {
                    assert(after[b] == before[b - 1]);
                    if b - 1 > p {
                        assert(before[p as int].tab_id < before[b - 1].tab_id);
                    }
                } else if a < p && b > p {
                    assert(after[b] == before[b - 1]);
                } else if a > p {
                    assert(after[a] == before[a - 1]);
                    assert(after[b] == before[b - 1]);
                }
            }
        }
        assert forall|id: TabId| #[trigger] last_of_tab(after, id) == if id == sv.tab_id {
            Some(sv)
        } else {
            last_of_tab(before, id)
        } by {
            lemma_indexed_by_lookup(after, id);
            lemma_indexed_by_lookup(before, id);
            lemma_indexed_lookup(after, p as int);
            if id != sv.tab_id {
                match last_of_tab(after, id) {
                    Some(x) => {
                        let k = choose|k: int| 0 <= k < after.len() && #[trigger] after[k] == x && x.tab_id == id;
                        let k0 = if replace || k < p { k } else { k - 1 };
                        assert(before[k0] == x);
                        lemma_indexed_lookup(before, k0);
                    },
                    None => {
                        if has_tab(before, id) {
                            let k = choose|k: int| 0 <= k < before.len() && #[trigger] before[k].tab_id == id;
                            let k1 = if replace || k < p { k } else { k + 1 };
                            assert(after[k1].tab_id == id);
                        }
                    },
                }
            }
        }
    }
}

/// Index samples by tab, as collecting them into an ordered map does: in
/// increasing tab order, the last sample of each tab.
pub fn index_snapshots(samples: &Vec<RepositorySnapshot>) -> (r: Vec<RepositorySnapshot>)
    ensures
        index_of_samples(snapshot_views(r@), snapshot_views(samples@)),
{
    let ghost s = snapshot_views(samples@);
    let mut m: Vec<RepositorySnapshot> = Vec::new();
    for i in 0..samples.len()
        invariant
            s == snapshot_views(samples@),
            index_of_samples(snapshot_views(m@), s.take(i as int)),
    {
        let ghost prev_m = snapshot_views(m@);
        let snap = samples[i].duplicate();
        insert_indexed(&mut m, snap);
        proof {
            assert(s.take(i + 1).drop_last() =~= s.take(i as int));
            assert(s.take(i + 1).last() == s[i as int]);
            assert forall|id: TabId| #[trigger] last_of_tab(s.take(i + 1), id) == last_of_tab(
                snapshot_views(m@),
                id,
            ) by {
                assert(last_of_tab(s.take(i as int), id) == last_of_tab(prev_m, id));
            }
        }
    }
    assert(s.take(samples@.len() as int) =~= s);
    m
}

/// One repository event as extensions receive it.
pub struct ExtensionEventPayload {
    /// The trigger the event was routed to; empty until routed.
    pub trigger_id: String,
    pub event_type: String,
    pub occurred_at: i64,
    pub repository: Option<RepositorySnapshot>,
    pub previous: Option<RepositorySnapshot>,
    pub current: Option<RepositorySnapshot>,
    /// The extension whose host call caused the change, if one claimed it.
    pub origin_extension_id: Option<String>,
    pub origin_run_id: Option<u64>,
}

/// Mathematical form of an event.
pub struct EventView {
    pub trigger_id: Seq<char>,
    pub event_type: Seq<char>,
    pub occurred_at: i64,
    pub repository: Option<SnapshotView>,
    pub previous: Option<SnapshotView>,
    pub current: Option<SnapshotView>,
    pub origin_extension_id: Option<Seq<char>>,
    pub origin_run_id: Option<u64>,
}

impl View for ExtensionEventPayload {
    type V = EventView;

    open spec fn view(&self) -> EventView {
        EventView {
            trigger_id: self.trigger_id@,
            event_type: self.event_type@,
            occurred_at: self.occurred_at,
            repository: opt_snapshot_view(self.repository),
            previous: opt_snapshot_view(self.previous),
            current: opt_snapshot_view(self.current),
            origin_extension_id: opt_view(self.origin_extension_id),
            origin_run_id: self.origin_run_id,
        }
    }
}

pub open spec fn event_views(v: Seq<ExtensionEventPayload>) -> Seq<EventView> {
    v.map_values(|e: ExtensionEventPayload| e@)
}

fn opt_snapshot_clone(o: &Option<RepositorySnapshot>) -> (r: Option<RepositorySnapshot>)
    ensures
        opt_snapshot_view(r) == opt_snapshot_view(*o),
{
    match o {
        Some(x) => Some(x.duplicate()),
        None => None,
    }
}

impl ExtensionEventPayload {
    /// An equal copy of this event.
    pub fn duplicate(&self) -> (r: ExtensionEventPayload)
        ensures
            r@ == self@,
    {
        ExtensionEventPayload {
            trigger_id: self.trigger_id.clone(),
            event_type: self.event_type.clone(),
            occurred_at: self.occurred_at,
            repository: opt_snapshot_clone(&self.repository),
            previous: opt_snapshot_clone(&self.previous),
            current: opt_snapshot_clone(&self.current),
            origin_extension_id: opt_string_clone(&self.origin_extension_id),
            origin_run_id: self.origin_run_id,
        }
    }
}

/// An extension's claim that its host call changed a repository.
pub struct PendingOrigin {
    pub tab_id: TabId,
    pub extension_id: String,
    pub run_id: u64,
    pub observed_at_ms: u64,
}

/// Mathematical form of a claim.
pub struct OriginView {
    pub tab_id: TabId,
    pub extension_id: Seq<char>,
    pub run_id: u64,
    pub observed_at_ms: u64,
}

impl View for PendingOrigin {
    type V = OriginView;

    open spec fn view(&self) -> OriginView {
        OriginView {
            tab_id: self.tab_id,
            extension_id: self.extension_id@,
            run_id: self.run_id,
            observed_at_ms: self.observed_at_ms,
        }
    }
}

pub open spec fn origin_views(v: Seq<PendingOrigin>) -> Seq<OriginView> {
    v.map_values(|o: PendingOrigin| o@)
}

/// The claim recorded for tab `id`.
pub open spec fn origin_of(os: Seq<OriginView>, id: TabId) -> Option<OriginView>
    decreases os.len(),
{
    if os.len() == 0 {
        None
    } else if os.last().tab_id == id {
        Some(os.last())
    } else {
        origin_of(os.drop_last(), id)
    }
}

/// An event about one repository.
pub open spec fn repo_event(
    event_type: Seq<char>,
    at: i64,
    repository: SnapshotView,
    previous: Option<SnapshotView>,
    current: Option<SnapshotView>,
    origin: Option<OriginView>,
) -> EventView {
    EventView {
        trigger_id: Seq::empty(),
        event_type,
        occurred_at: at,
        repository: Some(repository),
        previous,
        current,
        origin_extension_id: match origin {
            Some(o) => Some(o.extension_id),
            None => None,
        },
        origin_run_id: match origin {
            Some(o) => Some(o.run_id),
            None => None,
        },
    }
}

/// The events for one current repository sample.
pub open spec fn sample_events(
    prev: Seq<SnapshotView>,
    snap: SnapshotView,
    origins: Seq<OriginView>,
    at: i64,
) -> Seq<EventView> {
    match last_of_tab(prev, snap.tab_id) {
        None => seq![repo_event("workspace.repository_opened"@, at, snap, None, Some(snap), None)],
        Some(old) => if spec_state_changed(old, snap) {
            let origin = origin_of(origins, snap.tab_id);
            if old.branch != snap.branch {
                seq![
                    repo_event("repository.branch_changed"@, at, snap, Some(old), Some(snap), origin),
                    repo_event("repository.status_changed"@, at, snap, Some(old), Some(snap), origin),
                ]
            } else {
                seq![repo_event("repository.status_changed"@, at, snap, Some(old), Some(snap), origin)]
            }
        } else {
            seq![]
        },
    }
}

/// The events for the current samples, in tab order.
pub open spec fn current_events(
    prev: Seq<SnapshotView>,
    cur: Seq<SnapshotView>,
    origins: Seq<OriginView>,
    at: i64,
) -> Seq<EventView>
    decreases cur.len(),
{
    if cur.len() == 0 {
        seq![]
    } else {
        current_events(prev, cur.drop_last(), origins, at) + sample_events(prev, cur.last(), origins, at)
    }
}

/// The events for repositories that were closed, in tab order.
pub open spec fn closed_events(prev: Seq<SnapshotView>, cur: Seq<SnapshotView>, at: i64) -> Seq<EventView>
    decreases prev.len(),
{
    if prev.len() == 0 {
        seq![]
    } else {
        closed_events(prev.drop_last(), cur, at) + if has_tab(cur, prev.last().tab_id) {
            seq![]
        } else {
            seq![repo_event("workspace.repository_closed"@, at, prev.last(), Some(prev.last()), None, None)]
        }
    }
}

/// Whether a claim survives a sample: it is consumed by a change of its
/// repository, dropped when the repository closed, and expires after the
/// timeout when the repository shows no change.
pub open spec fn origin_kept(o: OriginView, prev: Seq<SnapshotView>, cur: Seq<SnapshotView>, now_ms: u64) -> bool {
    match (last_of_tab(prev, o.tab_id), last_of_tab(cur, o.tab_id)) {
        (Some(old), Some(snap)) => !spec_state_changed(old, snap) && now_ms < o.observed_at_ms
            + EXTENSION_ORIGIN_TIMEOUT_MS,
        (Some(_), None) => false,
        _ => true,
    }
}

/// The claims that survive a sample, in order.
pub open spec fn kept_origins(
    os: Seq<OriginView>,
    prev: Seq<SnapshotView>,
    cur: Seq<SnapshotView>,
    now_ms: u64,
) -> Seq<OriginView>
    decreases os.len(),
{
    if os.len() == 0 {
        seq![]
    } else if origin_kept(os.last(), prev, cur, now_ms) {
        kept_origins(os.drop_last(), prev, cur, now_ms).push(os.last())
    } else {
        kept_origins(os.drop_last(), prev, cur, now_ms)
    }
}

/// Claims name distinct repositories.
pub open spec fn origins_wf(os: Seq<OriginView>) -> bool {
    forall|a: int, b: int| 0 <= a < b < os.len() ==> #[trigger] os[a].tab_id != #[trigger] os[b].tab_id
}

/// The position of tab `id` in an indexed sequence.
fn find_tab(m: &Vec<RepositorySnapshot>, id: TabId) -> (r: Option<usize>)
    requires
        indexed(snapshot_views(m@)),
    ensures
        match r {
            Some(k) => k < m@.len() && m@[k as int].tab_id == id && last_of_tab(snapshot_views(m@), id)
                == Some(m@[k as int]@),
            None => last_of_tab(snapshot_views(m@), id) is None && !has_tab(snapshot_views(m@), id),
        },
{
    let ghost mv = snapshot_views(m@);
    for i in 0..m.len()
        invariant
            mv == snapshot_views(m@),
            indexed(mv),
            forall|k: int| 0 <= k < i ==> #[trigger] mv[k].tab_id != id,
    {
        if m[i].tab_id == id {
            proof {
                lemma_indexed_lookup(mv, i as int);
            }
            return Some(i);
        }
    }
    proof {
        lemma_last_of_tab_some(mv, id);
    }
    None
}

/// The claim recorded for tab `id`.
fn find_origin(os: &Vec<PendingOrigin>, id: TabId) -> (r: Option<usize>)
    requires
        origins_wf(origin_views(os@)),
    ensures
        match r {
            Some(k) => k < os@.len() && os@[k as int].tab_id == id && origin_of(origin_views(os@), id)
                == Some(os@[k as int]@),
            None => origin_of(origin_views(os@), id) is None,
        },
{
    let ghost ov = origin_views(os@);
    let mut i: usize = os.len();
    assert(ov.take(os@.len() as int) =~= ov);
    while i > 0
        invariant
            ov == origin_views(os@),
            i <= os@.len(),
            origin_of(ov, id) == origin_of(ov.take(i as int), id),
        decreases i,
    {
        assert(ov.take(i as int).drop_last() =~= ov.take(i - 1));
        assert(ov.take(i as int).last() == os@[i - 1]@);
        if os[i - 1].tab_id == id {
            return Some(i - 1);
        }
        i -= 1;
    }
    None
}

fn make_event(
    event_type: &str,
    at: i64,
    repository: &RepositorySnapshot,
    previous: Option<&RepositorySnapshot>,
    current: Option<&RepositorySnapshot>,
    origin: Option<&PendingOrigin>,
) -> (r: ExtensionEventPayload)
    ensures
        r@ == repo_event(
            event_type@,
            at,
            repository@,
            match previous {
                Some(p) => Some(p@),
                None => None,
            },
            match current {
                Some(c) => Some(c@),
                None => None,
            },
            match origin {
                Some(o) => Some(o@),
                None => None,
            },
        ),
{
    ExtensionEventPayload {
        trigger_id: String::new(),
        event_type: crate::text::owned(event_type),
        occurred_at: at,
        repository: Some(repository.duplicate()),
        previous: match previous {
            Some(p) => Some(p.duplicate()),
            None => None,
        },
        current: match current {
            Some(c) => Some(c.duplicate()),
            None => None,
        },
        origin_extension_id: match origin {
            Some(o) => Some(o.extension_id.clone()),
            None => None,
        },
        origin_run_id: match origin {
            Some(o) => Some(o.run_id),
            None => None,
        },
    }
}

/// The repositories last seen by extensions and the pending claims of
/// extensions to have changed them.
pub struct RepositoryObserver {
    observed: Vec<RepositorySnapshot>,
    origins: Vec<PendingOrigin>,
}

/// Mathematical form of the observer.
pub struct ObserverView {
    pub observed: Seq<SnapshotView>,
    pub origins: Seq<OriginView>,
}

impl View for RepositoryObserver {
    type V = ObserverView;

    closed spec fn view(&self) -> ObserverView {
        ObserverView { observed: snapshot_views(self.observed@), origins: origin_views(self.origins@) }
    }
}

/// The observer's invariant: repositories indexed by tab, one claim per tab.
pub open spec fn observer_wf(v: ObserverView) -> bool {
    indexed(v.observed) && origins_wf(v.origins)
}

impl RepositoryObserver {
    /// An observer that has seen nothing.
    pub fn new() -> (r: RepositoryObserver)
        ensures
            r@.observed == Seq::<SnapshotView>::empty(),
            r@.origins == Seq::<OriginView>::empty(),
            observer_wf(r@),
    {
        let r = RepositoryObserver { observed: Vec::new(), origins: Vec::new() };
        assert(snapshot_views(r.observed@) =~= Seq::<SnapshotView>::empty());
        assert(origin_views(r.origins@) =~= Seq::<OriginView>::empty());
        r
    }

    /// The repositories last seen, in tab order.
    pub fn observed(&self) -> (r: &Vec<RepositorySnapshot>)
        ensures
            snapshot_views(r@) == self@.observed,
    {
        &self.observed
    }

    /// Record that extension `extension_id`'s run `run_id` changed the
    /// repository of tab `tab_id`, replacing an earlier claim for that tab.
    pub fn record_origin(&mut self, tab_id: TabId, extension_id: String, run_id: u64, now_ms: u64)
        requires
            observer_wf(old(self)@),
        ensures
            observer_wf(final(self)@),
            final(self)@.observed == old(self)@.observed,
            forall|id: TabId| #[trigger] origin_of(final(self)@.origins, id) == if id == tab_id {
                Some(OriginView { tab_id, extension_id: extension_id@, run_id, observed_at_ms: now_ms })
            } else {
                origin_of(old(self)@.origins, id)
            },
    {
        let ghost before = origin_views(self.origins@);
        let ghost claim = OriginView { tab_id, extension_id: extension_id@, run_id, observed_at_ms: now_ms };
        match find_origin(&self.origins, tab_id) {
            Some(k) => {
                self.origins.remove(k);
                proof {
                    let mid = origin_views(self.origins@);
                    assert(mid =~= before.remove(k as int));
                    lemma_origin_of_remove(before, k as int);
                }
            },
            None => {},
        }
        assert(origins_wf(origin_views(self.origins@)));
        assert forall|id: TabId| #[trigger] origin_of(origin_views(self.origins@), id) == if id == tab_id {
            None
        } else {
            origin_of(before, id)
        } by {}
        let ghost mid = origin_views(self.origins@);
        self.origins.push(PendingOrigin { tab_id, extension_id, run_id, observed_at_ms: now_ms });
        proof {
            let after = origin_views(self.origins@);
            assert(after =~= mid.push(claim));
            assert forall|id: TabId| #[trigger] origin_of(after, id) == if id == tab_id {
                Some(claim)
            } else {
                origin_of(before, id)
            } by {
                assert(after.drop_last() =~= mid);
                assert(after.last() == claim);
                if id != tab_id {
                    assert(origin_of(after, id) == origin_of(mid, id));
                }
            }
            assert forall|a: int, b: int| 0 <= a < b < after.len() implies #[trigger] after[a].tab_id
                != #[trigger] after[b].tab_id by {
                if b == after.len() - 1 {
                    assert(after[a] == mid[a]);
                    lemma_origin_of_none_absent(mid, tab_id, a);
                } else {
                    assert(after[a] == mid[a]);
                    assert(after[b] == mid[b]);
                }
            }
        }
    }
}

impl RepositoryObserver {
    /// Compare a new sample of the open repositories with the last one and
    /// hand out the events it implies: in tab order, an opened repository, or
    /// for a changed one a branch change (followed by a status change) or a
    /// status change, carrying the claim of the extension that caused it; then
    /// closed repositories. The sample becomes the last one seen; claims are
    /// consumed, dropped or expired as `origin_kept` says.
    pub fn sync(&mut self, samples: &Vec<RepositorySnapshot>, occurred_at: i64, now_ms: u64) -> (r: Vec<
        ExtensionEventPayload,
    >)
        requires
            observer_wf(old(self)@),
        ensures
            observer_wf(final(self)@),
            index_of_samples(final(self)@.observed, snapshot_views(samples@)),
            event_views(r@) == current_events(
                old(self)@.observed,
                final(self)@.observed,
                old(self)@.origins,
                occurred_at,
            ) + closed_events(old(self)@.observed, final(self)@.observed, occurred_at),
            final(self)@.origins == kept_origins(
                old(self)@.origins,
                old(self)@.observed,
                final(self)@.observed,
                now_ms,
            ),
    {
        let current = index_snapshots(samples);
        let ghost prev = snapshot_views(self.observed@);
        let ghost cur = snapshot_views(current@);
        let ghost os = origin_views(self.origins@);
        let mut events: Vec<ExtensionEventPayload> = Vec::new();
        for i in 0..current.len()
            invariant
                prev == snapshot_views(self.observed@),
                cur == snapshot_views(current@),
                os == origin_views(self.origins@),
                indexed(prev),
                origins_wf(os),
                event_views(events@) == current_events(prev, cur.take(i as int), os, occurred_at),
        {
            let snap = &current[i];
            assert(cur.take(i + 1).drop_last() =~= cur.take(i as int));
            assert(cur.take(i + 1).last() == snap@);
            let ghost before = event_views(events@);
            match find_tab(&self.observed, snap.tab_id) {
                None => {
                    let e = make_event("workspace.repository_opened", occurred_at, snap, None, Some(snap), None);
                    events.push(e);
                    assert(event_views(events@) =~= before + sample_events(prev, snap@, os, occurred_at));
                },
                Some(k) => {
                    let old = &self.observed[k];
                    if repository_state_changed(old, snap) {
                        let origin = match find_origin(&self.origins, snap.tab_id) {
                            Some(j) => Some(&self.origins[j]),
                            None => None,
                        };
                        if !opt_string_eq(&old.branch, &snap.branch) {
                            let e1 = make_event("repository.branch_changed", occurred_at, snap, Some(old), Some(snap), origin);
                            events.push(e1);
                            let e2 = make_event("repository.status_changed", occurred_at, snap, Some(old), Some(snap), origin);
                            events.push(e2);
                            assert(event_views(events@) =~= before + sample_events(prev, snap@, os, occurred_at));
                        } else {
                            let e = make_event("repository.status_changed", occurred_at, snap, Some(old), Some(snap), origin);
                            events.push(e);
                            assert(event_views(events@) =~= before + sample_events(prev, snap@, os, occurred_at));
                        }
                    } else {
                        assert(event_views(events@) =~= before + sample_events(prev, snap@, os, occurred_at));
                    }
                },
            }
        }
        assert(cur.take(current@.len() as int) =~= cur);
        let ghost opened = event_views(events@);
        let mut closed: Vec<ExtensionEventPayload> = Vec::new();
        for j in 0..self.observed.len()
            invariant
                prev == snapshot_views(self.observed@),
                cur == snapshot_views(current@),
                indexed(cur),
                event_views(closed@) == closed_events(prev.take(j as int), cur, occurred_at),
        {
            let old = &self.observed[j];
            assert(prev.take(j + 1).drop_last() =~= prev.take(j as int));
            assert(prev.take(j + 1).last() == old@);
            let ghost before = event_views(closed@);
            match find_tab(&current, old.tab_id) {
                None => {
                    let e = make_event("workspace.repository_closed", occurred_at, old, Some(old), None, None);
                    closed.push(e);
                    assert(event_views(closed@) =~= before.push(e@));
                },
                Some(k) => {
                    assert(cur[k as int].tab_id == old.tab_id);
                    assert(has_tab(cur, old.tab_id));
                },
            }
        }
        assert(prev.take(self.observed@.len() as int) =~= prev);
        let ghost closed_v = event_views(closed@);
        events.append(&mut closed);
        assert(event_views(events@) =~= opened + closed_v);
        let mut kept: Vec<PendingOrigin> = Vec::new();
        let ghost mut picked: Seq<int> = Seq::empty();
        for j in 0..self.origins.len()
            invariant
                prev == snapshot_views(self.observed@),
                cur == snapshot_views(current@),
                os == origin_views(self.origins@),
                indexed(prev),
                indexed(cur),
                origins_wf(os),
                origin_views(kept@) == kept_origins(os.take(j as int), prev, cur, now_ms),
                picked.len() == kept@.len(),
                forall|a: int| 0 <= a < picked.len() ==> 0 <= #[trigger] picked[a] < j,
                forall|a: int, b: int| 0 <= a < b < picked.len() ==> #[trigger] picked[a] < #[trigger] picked[b],
                forall|a: int| 0 <= a < picked.len() ==> os[#[trigger] picked[a]] == origin_views(kept@)[a],
        {
            let o = &self.origins[j];
            assert(os.take(j + 1).drop_last() =~= os.take(j as int));
            assert(os.take(j + 1).last() == o@);
            let keep = match (find_tab(&self.observed, o.tab_id), find_tab(&current, o.tab_id)) {
                (Some(a), Some(b)) => !repository_state_changed(&self.observed[a], &current[b])
                    && now_ms.saturating_sub(o.observed_at_ms) < EXTENSION_ORIGIN_TIMEOUT_MS,
                (Some(_), None) => false,
                _ => true,
            };
            assert(keep == origin_kept(o@, prev, cur, now_ms));
            if keep {
                let ghost before = origin_views(kept@);
                kept.push(PendingOrigin {
                    tab_id: o.tab_id,
                    extension_id: o.extension_id.clone(),
                    run_id: o.run_id,
                    observed_at_ms: o.observed_at_ms,
                });
                assert(origin_views(kept@) =~= before.push(o@));
                proof {
                    picked = picked.push(j as int);
                }
            }
        }
        assert(os.take(self.origins@.len() as int) =~= os);
        proof {
            let kv = origin_views(kept@);
            assert forall|a: int, b: int| 0 <= a < b < kv.len() implies #[trigger] kv[a].tab_id
                != #[trigger] kv[b].tab_id by {
                assert(os[picked[a]] == kv[a]);
                assert(os[picked[b]] == kv[b]);
                assert(picked[a] < picked[b]);
            }
        }
        self.observed = current;
        self.origins = kept;
        events
    }
}

/// With distinct tabs, removing the claim at `k` forgets exactly its tab.
proof fn lemma_origin_of_remove(os: Seq<OriginView>, k: int)
    requires
        origins_wf(os),
        0 <= k < os.len(),
        origin_of(os, os[k].tab_id) == Some(os[k]),
    ensures
        origins_wf(os.remove(k)),
        forall|id: TabId| #[trigger] origin_of(os.remove(k), id) == if id == os[k].tab_id {
            None
        } else {
            origin_of(os, id)
        },
    decreases os.len(),
{
    let r = os.remove(k);
    assert forall|a: int, b: int| 0 <= a < b < r.len() implies #[trigger] r[a].tab_id != #[trigger] r[b].tab_id by {
        let a0 = if a < k { a } else { a + 1 };
        let b0 = if b < k { b } else { b + 1 };
        assert(r[a] == os[a0]);
        assert(r[b] == os[b0]);
    }
    assert forall|id: TabId| #[trigger] origin_of(r, id) == if id == os[k].tab_id {
        None
    } else {
        origin_of(os, id)
    } by {
        lemma_origin_of_remove_at(os, k, id);
    }
}

proof fn lemma_origin_of_remove_at(os: Seq<OriginView>, k: int, id: TabId)
    requires
        origins_wf(os),
        0 <= k < os.len(),
    ensures
        origin_of(os.remove(k), id) == if id == os[k].tab_id {
            None
        } else {
            origin_of(os, id)
        },
    decreases os.len(),
{
    let r = os.remove(k);
    if k == os.len() - 1 {
        assert(r =~= os.drop_last());
        if id == os[k].tab_id {
            lemma_origin_of_none_when_absent(os.drop_last(), id);
            assert forall|j: int| 0 <= j < os.drop_last().len() implies os.drop_last()[j].tab_id != id by {
                assert(os.drop_last()[j] == os[j]);
            }
            lemma_origin_of_none_when_absent(os.drop_last(), id);
        }
    } else {
        assert(r.drop_last() =~= os.drop_last().remove(k));
        assert(r.last() == os.last());
        assert forall|a: int, b: int| 0 <= a < b < os.drop_last().len() implies #[trigger] os.drop_last()[a].tab_id
            != #[trigger] os.drop_last()[b].tab_id by {
            assert(os.drop_last()[a] == os[a]);
            assert(os.drop_last()[b] == os[b]);
        }
        lemma_origin_of_remove_at(os.drop_last(), k, id);
        assert(os.drop_last()[k] == os[k]);
        if os.last().tab_id == id {
            assert(os[os.len() - 1].tab_id != os[k].tab_id);
        }
    }
}

proof fn lemma_origin_of_none_when_absent(os: Seq<OriginView>, id: TabId)
    ensures
        (forall|j: int| 0 <= j < os.len() ==> #[trigger] os[j].tab_id != id) ==> origin_of(os, id) is None,
    decreases os.len(),
{
    if os.len() > 0 {
        if forall|j: int| 0 <= j < os.len() ==> #[trigger] os[j].tab_id != id {
            assert forall|j: int| 0 <= j < os.drop_last().len() implies #[trigger] os.drop_last()[j].tab_id != id by {
                assert(os.drop_last()[j] == os[j]);
            }
            assert(os[os.len() - 1].tab_id != id);
        }
        lemma_origin_of_none_when_absent(os.drop_last(), id);
    }
}

/// A tab without a claim appears nowhere in the claims.
proof fn lemma_origin_of_none_absent(os: Seq<OriginView>, id: TabId, a: int)
    requires
        origin_of(os, id) is None,
        0 <= a < os.len(),
    ensures
        os[a].tab_id != id,
    decreases os.len(),
{
    if a < os.len() - 1 {
        assert(os.drop_last()[a] == os[a]);
        lemma_origin_of_none_absent(os.drop_last(), id, a);
    }
}

/// One event trigger of an extension, with whether the user subscribed to it.
pub struct EventTrigger {
    pub id: String,
    pub event_type: String,
    pub debounce_ms: u64,
    pub subscribed: bool,
}

/// What routing needs to know of one installed extension.
pub struct ExtensionRoute {
    pub extension_id: String,
    pub trusted: bool,
    pub triggers: Vec<EventTrigger>,
}

/// Mathematical form of a trigger.
pub struct TriggerView {
    pub id: Seq<char>,
    pub event_type: Seq<char>,
    pub debounce_ms: u64,
    pub subscribed: bool,
}

/// Mathematical form of a route.
pub struct RouteView {
    pub extension_id: Seq<char>,
    pub trusted: bool,
    pub triggers: Seq<TriggerView>,
}

impl View for EventTrigger {
    type V = TriggerView;

    open spec fn view(&self) -> TriggerView {
        TriggerView {
            id: self.id@,
            event_type: self.event_type@,
            debounce_ms: self.debounce_ms,
            subscribed: self.subscribed,
        }
    }
}

impl View for ExtensionRoute {
    type V = RouteView;

    open spec fn view(&self) -> RouteView {
        RouteView {
            extension_id: self.extension_id@,
            trusted: self.trusted,
            triggers: self.triggers@.map_values(|t: EventTrigger| t@),
        }
    }
}

pub open spec fn route_views(v: Seq<ExtensionRoute>) -> Seq<RouteView> {
    v.map_values(|r: ExtensionRoute| r@)
}

/// One delivery of an event to an extension trigger.
pub struct Delivery {
    pub extension_id: Seq<char>,
    pub trigger_id: Seq<char>,
    pub debounce_ms: u64,
}

/// Whether an extension takes events at all: it must be trusted, and it
/// never receives an event its own run caused.
pub open spec fn route_accepts(route: RouteView, e: EventView) -> bool {
    route.trusted && e.origin_extension_id != Some(route.extension_id)
}

/// The deliveries to the first triggers `ts` of an accepting extension.
pub open spec fn trigger_deliveries(ext: Seq<char>, ts: Seq<TriggerView>, e: EventView) -> Seq<Delivery>
    decreases ts.len(),
{
    if ts.len() == 0 {
        seq![]
    } else {
        trigger_deliveries(ext, ts.drop_last(), e) + if ts.last().event_type == e.event_type
            && ts.last().subscribed {
            seq![Delivery { extension_id: ext, trigger_id: ts.last().id, debounce_ms: ts.last().debounce_ms }]
        } else {
            seq![]
        }
    }
}

/// The deliveries of an event, in extension and trigger order.
pub open spec fn deliveries(routes: Seq<RouteView>, e: EventView) -> Seq<Delivery>
    decreases routes.len(),
{
    if routes.len() == 0 {
        seq![]
    } else {
        deliveries(routes.drop_last(), e) + if route_accepts(routes.last(), e) {
            trigger_deliveries(routes.last().extension_id, routes.last().triggers, e)
        } else {
            seq![]
        }
    }
}

/// Events waiting for one trigger's debounce to elapse.
pub struct PendingEventBatch {
    pub extension_id: String,
    pub trigger_id: String,
    pub due_at_ms: u64,
    pub events: Vec<ExtensionEventPayload>,
}

/// Mathematical form of a batch.
pub struct BatchView {
    pub extension_id: Seq<char>,
    pub trigger_id: Seq<char>,
    pub due_at_ms: u64,
    pub events: Seq<EventView>,
}

impl View for PendingEventBatch {
    type V = BatchView;

    open spec fn view(&self) -> BatchView {
        BatchView {
            extension_id: self.extension_id@,
            trigger_id: self.trigger_id@,
            due_at_ms: self.due_at_ms,
            events: event_views(self.events@),
        }
    }
}

pub open spec fn batch_views(v: Seq<PendingEventBatch>) -> Seq<BatchView> {
    v.map_values(|b: PendingEventBatch| b@)
}

/// The batch of one extension trigger.
pub open spec fn batch_of(bs: Seq<BatchView>, ext: Seq<char>, trig: Seq<char>) -> Option<BatchView>
    decreases bs.len(),
{
    if bs.len() == 0 {
        None
    } else if bs.last().extension_id == ext && bs.last().trigger_id == trig {
        Some(bs.last())
    } else {
        batch_of(bs.drop_last(), ext, trig)
    }
}

/// Batches belong to distinct extension triggers.
pub open spec fn batches_wf(bs: Seq<BatchView>) -> bool {
    forall|a: int, b: int|
        0 <= a < b < bs.len() ==> (#[trigger] bs[a].extension_id != #[trigger] bs[b].extension_id
            || bs[a].trigger_id != bs[b].trigger_id)
}

/// The tab an event is about.
pub open spec fn event_tab(e: EventView) -> Option<TabId> {
    match e.repository {
        Some(r) => Some(r.tab_id),
        None => None,
    }
}

/// The events of a batch without earlier events about tab `tab`.
pub open spec fn without_tab(es: Seq<EventView>, tab: Option<TabId>) -> Seq<EventView>
    decreases es.len(),
{
    if es.len() == 0 {
        seq![]
    } else if tab is Some && event_tab(es.last()) == tab {
        without_tab(es.drop_last(), tab)
    } else {
        without_tab(es.drop_last(), tab).push(es.last())
    }
}

/// A batch after one more delivery: its debounce restarts, and the event
/// (routed to the trigger) replaces any earlier event about the same tab.
pub open spec fn add_to_batch(prior: Option<BatchView>, d: Delivery, e: EventView, now_ms: u64) -> BatchView {
    BatchView {
        extension_id: d.extension_id,
        trigger_id: d.trigger_id,
        due_at_ms: if now_ms + d.debounce_ms > u64::MAX {
            u64::MAX
        } else {
            (now_ms + d.debounce_ms) as u64
        },
        events: match prior {
            Some(b) => without_tab(b.events, event_tab(e)),
            None => seq![],
        }.push(EventView { trigger_id: d.trigger_id, ..e }),
    }
}

/// The batch of one extension trigger after deliveries `ds`.
pub open spec fn after_deliveries(
    bs: Seq<BatchView>,
    ds: Seq<Delivery>,
    e: EventView,
    now_ms: u64,
    ext: Seq<char>,
    trig: Seq<char>,
) -> Option<BatchView>
    decreases ds.len(),
{
    if ds.len() == 0 {
        batch_of(bs, ext, trig)
    } else {
        let prior = after_deliveries(bs, ds.drop_last(), e, now_ms, ext, trig);
        if ds.last().extension_id == ext && ds.last().trigger_id == trig {
            Some(add_to_batch(prior, ds.last(), e, now_ms))
        } else {
            prior
        }
    }
}

pub open spec fn has_batch(bs: Seq<BatchView>, ext: Seq<char>, trig: Seq<char>) -> bool {
    exists|k: int| 0 <= k < bs.len() && #[trigger] bs[k].extension_id == ext && bs[k].trigger_id == trig
}

proof fn lemma_batch_at(bs: Seq<BatchView>, k: int)
    requires
        batches_wf(bs),
        0 <= k < bs.len(),
    ensures
        batch_of(bs, bs[k].extension_id, bs[k].trigger_id) == Some(bs[k]),
    decreases bs.len(),
{
    if k < bs.len() - 1 {
        let d = bs.drop_last();
        assert(d[k] == bs[k]);
        assert(bs[k].extension_id != bs[bs.len() - 1].extension_id || bs[k].trigger_id != bs[bs.len()
            - 1].trigger_id);
        assert forall|a: int, b: int| 0 <= a < b < d.len() implies (#[trigger] d[a].extension_id
            != #[trigger] d[b].extension_id || d[a].trigger_id != d[b].trigger_id) by {
            assert(d[a] == bs[a]);
            assert(d[b] == bs[b]);
        }
        lemma_batch_at(d, k);
    }
}

proof fn lemma_batch_lookup(bs: Seq<BatchView>, ext: Seq<char>, trig: Seq<char>)
    ensures
        batch_of(bs, ext, trig) is None <==> !has_batch(bs, ext, trig),
        batch_of(bs, ext, trig) matches Some(x) ==> x.extension_id == ext && x.trigger_id == trig,
    decreases bs.len(),
{
    if bs.len() > 0 {
        let d = bs.drop_last();
        lemma_batch_lookup(d, ext, trig);
        if has_batch(d, ext, trig) {
            let k = choose|k: int| 0 <= k < d.len() && #[trigger] d[k].extension_id == ext && d[k].trigger_id == trig;
            assert(bs[k] == d[k]);
        }
        if has_batch(bs, ext, trig) {
            let k = choose|k: int| 0 <= k < bs.len() && #[trigger] bs[k].extension_id == ext && bs[k].trigger_id == trig;
            if k < bs.len() - 1 {
                assert(d[k] == bs[k]);
            }
        }
        if bs.last().extension_id == ext && bs.last().trigger_id == trig {
            assert(bs[bs.len() - 1].extension_id == ext);
        }
    }
}

/// Replacing the batch at `k` by one of the same trigger changes only that
/// trigger's batch.
proof fn lemma_batch_update(bs: Seq<BatchView>, k: int, nb: BatchView)
    requires
        batches_wf(bs),
        0 <= k < bs.len(),
        nb.extension_id == bs[k].extension_id,
        nb.trigger_id == bs[k].trigger_id,
    ensures
        batches_wf(bs.update(k, nb)),
        forall|ext: Seq<char>, trig: Seq<char>|
            #[trigger] batch_of(bs.update(k, nb), ext, trig) == if ext == nb.extension_id && trig
                == nb.trigger_id {
                Some(nb)
            } else {
                batch_of(bs, ext, trig)
            },
{
    let after = bs.update(k, nb);
    assert forall|a: int, b: int| 0 <= a < b < after.len() implies (#[trigger] after[a].extension_id
        != #[trigger] after[b].extension_id || after[a].trigger_id != after[b].trigger_id) by {}
    assert forall|ext: Seq<char>, trig: Seq<char>| #[trigger] batch_of(after, ext, trig) == if ext
        == nb.extension_id && trig == nb.trigger_id {
        Some(nb)
    } else {
        batch_of(bs, ext, trig)
    } by {
        lemma_batch_lookup(after, ext, trig);
        lemma_batch_lookup(bs, ext, trig);
        if ext == nb.extension_id && trig == nb.trigger_id {
            lemma_batch_at(after, k);
        } else {
            if has_batch(bs, ext, trig) {
                let j = choose|j: int| 0 <= j < bs.len() && #[trigger] bs[j].extension_id == ext && bs[j].trigger_id == trig;
                assert(j != k);
                lemma_batch_at(bs, j);
                lemma_batch_at(after, j);
            } else if has_batch(after, ext, trig) {
                let j = choose|j: int| 0 <= j < after.len() && #[trigger] after[j].extension_id == ext && after[j].trigger_id == trig;
                assert(bs[j] == after[j]);
            }
        }
    }
}

/// Adding a batch for a trigger without one changes only that trigger.
proof fn lemma_batch_push(bs: Seq<BatchView>, nb: BatchView)
    requires
        batches_wf(bs),
        batch_of(bs, nb.extension_id, nb.trigger_id) is None,
    ensures
        batches_wf(bs.push(nb)),
        forall|ext: Seq<char>, trig: Seq<char>|
            #[trigger] batch_of(bs.push(nb), ext, trig) == if ext == nb.extension_id && trig
                == nb.trigger_id {
                Some(nb)
            } else {
                batch_of(bs, ext, trig)
            },
{
    let after = bs.push(nb);
    lemma_batch_lookup(bs, nb.extension_id, nb.trigger_id);
    assert forall|a: int, b: int| 0 <= a < b < after.len() implies (#[trigger] after[a].extension_id
        != #[trigger] after[b].extension_id || after[a].trigger_id != after[b].trigger_id) by {
        if b == bs.len() {
            assert(after[a] == bs[a]);
            if after[a].extension_id == nb.extension_id && after[a].trigger_id == nb.trigger_id {
                assert(has_batch(bs, nb.extension_id, nb.trigger_id));
            }
        } else {
            assert(after[a] == bs[a]);
            assert(after[b] == bs[b]);
        }
    }
    assert forall|ext: Seq<char>, trig: Seq<char>| #[trigger] batch_of(after, ext, trig) == if ext
        == nb.extension_id && trig == nb.trigger_id {
        Some(nb)
    } else {
        batch_of(bs, ext, trig)
    } by {
        assert(after.drop_last() =~= bs);
    }
}

fn find_batch(bs: &Vec<PendingEventBatch>, ext: &String, trig: &String) -> (r: Option<usize>)
    requires
        batches_wf(batch_views(bs@)),
    ensures
        match r {
            Some(k) => k < bs@.len() && bs@[k as int].extension_id@ == ext@ && bs@[k as int].trigger_id@
                == trig@,
            None => batch_of(batch_views(bs@), ext@, trig@) is None,
        },
{
    let ghost bv = batch_views(bs@);
    for i in 0..bs.len()
        invariant
            bv == batch_views(bs@),
            forall|k: int| 0 <= k < i ==> !(#[trigger] bv[k].extension_id == ext@ && bv[k].trigger_id == trig@),
    {
        if bs[i].extension_id.eq(ext) && bs[i].trigger_id.eq(trig) {
            return Some(i);
        }
    }
    proof {
        lemma_batch_lookup(bv, ext@, trig@);
        if has_batch(bv, ext@, trig@) {
            let k = choose|k: int| 0 <= k < bv.len() && #[trigger] bv[k].extension_id == ext@ && bv[k].trigger_id == trig@;
        }
    }
    None
}

fn event_tab_of(e: &ExtensionEventPayload) -> (r: Option<TabId>)
    ensures
        r == event_tab(e@),
{
    match &e.repository {
        Some(r) => Some(r.tab_id),
        None => None,
    }
}

fn drop_tab_events(events: Vec<ExtensionEventPayload>, tab: Option<TabId>) -> (r: Vec<ExtensionEventPayload>)
    ensures
        event_views(r@) == without_tab(event_views(events@), tab),
{
    let ghost ev = event_views(events@);
    let mut out: Vec<ExtensionEventPayload> = Vec::new();
    for i in 0..events.len()
        invariant
            ev == event_views(events@),
            event_views(out@) == without_tab(ev.take(i as int), tab),
    {
        assert(ev.take(i + 1).drop_last() =~= ev.take(i as int));
        assert(ev.take(i + 1).last() == events@[i as int]@);
        let same = match (tab, event_tab_of(&events[i])) {
            (Some(t), Some(u)) => t == u,
            _ => false,
        };
        if !same {
            let ghost before = event_views(out@);
            out.push(events[i].duplicate());
            assert(event_views(out@) =~= before.push(events@[i as int]@));
        }
    }
    assert(ev.take(events@.len() as int) =~= ev);
    out
}

/// Events waiting, per extension trigger, for their debounce to elapse.
pub struct PendingEvents {
    batches: Vec<PendingEventBatch>,
}

impl View for PendingEvents {
    type V = Seq<BatchView>;

    closed spec fn view(&self) -> Seq<BatchView> {
        batch_views(self.batches@)
    }
}

impl PendingEvents {
    /// No pending events.
    pub fn new() -> (r: PendingEvents)
        ensures
            r@ == Seq::<BatchView>::empty(),
    {
        let r = PendingEvents { batches: Vec::new() };
        assert(r@ =~= Seq::<BatchView>::empty());
        r
    }

    /// Drop every pending batch (after the extensions were reloaded: their
    /// payloads belong to the old definitions).
    pub fn clear(&mut self)
        ensures
            final(self)@ == Seq::<BatchView>::empty(),
    {
        self.batches = Vec::new();
        assert(self@ =~= Seq::<BatchView>::empty());
    }

    /// The pending batches.
    pub fn batches(&self) -> (r: &Vec<PendingEventBatch>)
        ensures
            batch_views(r@) == self@,
    {
        &self.batches
    }

    fn deliver(&mut self, ext: &String, trig: &String, debounce_ms: u64, event: &ExtensionEventPayload, now_ms: u64)
        requires
            batches_wf(old(self)@),
        ensures
            batches_wf(final(self)@),
            forall|x: Seq<char>, t: Seq<char>|
                #[trigger] batch_of(final(self)@, x, t) == if x == ext@ && t == trig@ {
                    Some(
                        add_to_batch(
                            batch_of(old(self)@, x, t),
                            Delivery { extension_id: ext@, trigger_id: trig@, debounce_ms },
                            event@,
                            now_ms,
                        ),
                    )
                } else {
                    batch_of(old(self)@, x, t)
                },
    {
        let ghost before = self@;
        let ghost d = Delivery { extension_id: ext@, trigger_id: trig@, debounce_ms };
        let due = now_ms.saturating_add(debounce_ms);
        let mut routed = event.duplicate();
        routed.trigger_id = trig.clone();
        assert(routed@ == (EventView { trigger_id: trig@, ..event@ }));
        let tab = event_tab_of(event);
        match find_batch(&self.batches, ext, trig) {
            Some(k) => {
                proof {
                    lemma_batch_at(before, k as int);
                }
                let PendingEventBatch { extension_id, trigger_id, due_at_ms: _, events } = self.batches.remove(k);
                let mut kept = drop_tab_events(events, tab);
                let ghost kept_before = event_views(kept@);
                kept.push(routed);
                assert(event_views(kept@) =~= kept_before.push(EventView { trigger_id: trig@, ..event@ }));
                let nb = PendingEventBatch { extension_id, trigger_id, due_at_ms: due, events: kept };
                assert(nb@ == add_to_batch(batch_of(before, ext@, trig@), d, event@, now_ms));
                self.batches.insert(k, nb);
                proof {
                    assert(self@ =~= before.update(k as int, nb@));
                    lemma_batch_update(before, k as int, nb@);
                }
            },
            None => {
                let mut events: Vec<ExtensionEventPayload> = Vec::new();
                events.push(routed);
                let nb = PendingEventBatch {
                    extension_id: ext.clone(),
                    trigger_id: trig.clone(),
                    due_at_ms: due,
                    events,
                };
                assert(event_views(nb.events@) =~= seq![EventView { trigger_id: trig@, ..event@ }]);
                assert(nb@ == add_to_batch(batch_of(before, ext@, trig@), d, event@, now_ms));
                self.batches.push(nb);
                proof {
                    assert(self@ =~= before.push(nb@));
                    lemma_batch_push(before, nb@);
                }
            },
        }
    }
}

proof fn lemma_after_deliveries_push(
    bs: Seq<BatchView>,
    ds: Seq<Delivery>,
    d: Delivery,
    e: EventView,
    now_ms: u64,
    ext: Seq<char>,
    trig: Seq<char>,
)
    ensures
        after_deliveries(bs, ds.push(d), e, now_ms, ext, trig) == if d.extension_id == ext
            && d.trigger_id == trig {
            Some(add_to_batch(after_deliveries(bs, ds, e, now_ms, ext, trig), d, e, now_ms))
        } else {
            after_deliveries(bs, ds, e, now_ms, ext, trig)
        },
{
    assert(ds.push(d).drop_last() =~= ds);
}

fn origin_is(e: &ExtensionEventPayload, ext: &String) -> (r: bool)
    ensures
        r == (e@.origin_extension_id == Some(ext@)),
{
    match &e.origin_extension_id {
        Some(o) => o.eq(ext),
        None => false,
    }
}

impl PendingEvents {
    /// Route a repository event to every subscribed trigger of its type of
    /// every trusted extension that did not cause it, restarting each
    /// trigger's debounce; within a batch the newest event about a tab
    /// replaces older ones.
    pub fn emit_repository_event(&mut self, routes: &Vec<ExtensionRoute>, event: &ExtensionEventPayload, now_ms: u64)
        requires
            batches_wf(old(self)@),
        ensures
            batches_wf(final(self)@),
            forall|ext: Seq<char>, trig: Seq<char>|
                #[trigger] batch_of(final(self)@, ext, trig) == after_deliveries(
                    old(self)@,
                    deliveries(route_views(routes@), event@),
                    event@,
                    now_ms,
                    ext,
                    trig,
                ),
    {
        let ghost start = self@;
        let ghost rv = route_views(routes@);
        let ghost e = event@;
        for r in 0..routes.len()
            invariant
                rv == route_views(routes@),
                e == event@,
                batches_wf(self@),
                forall|ext: Seq<char>, trig: Seq<char>|
                    #[trigger] batch_of(self@, ext, trig) == after_deliveries(
                        start,
                        deliveries(rv.take(r as int), e),
                        e,
                        now_ms,
                        ext,
                        trig,
                    ),
        {
            let route = &routes[r];
            assert(rv.take(r + 1).drop_last() =~= rv.take(r as int));
            assert(rv.take(r + 1).last() == route@);
            let ghost done = deliveries(rv.take(r as int), e);
            if route.trusted && !origin_is(event, &route.extension_id) {
                let ghost tv = route@.triggers;
                for t in 0..route.triggers.len()
                    invariant
                        rv == route_views(routes@),
                        e == event@,
                        tv == route@.triggers,
                        batches_wf(self@),
                        forall|ext: Seq<char>, trig: Seq<char>|
                            #[trigger] batch_of(self@, ext, trig) == after_deliveries(
                                start,
                                done + trigger_deliveries(route@.extension_id, tv.take(t as int), e),
                                e,
                                now_ms,
                                ext,
                                trig,
                            ),
                {
                    let trigger = &route.triggers[t];
                    assert(tv.take(t + 1).drop_last() =~= tv.take(t as int));
                    assert(tv.take(t + 1).last() == trigger@);
                    let ghost prefix = done + trigger_deliveries(route@.extension_id, tv.take(t as int), e);
                    if str_eq(trigger.event_type.as_str(), event.event_type.as_str()) && trigger.subscribed {
                        let ghost before = self@;
                        self.deliver(&route.extension_id, &trigger.id, trigger.debounce_ms, event, now_ms);
                        let ghost d = Delivery {
                            extension_id: route@.extension_id,
                            trigger_id: trigger@.id,
                            debounce_ms: trigger.debounce_ms,
                        };
                        assert(done + trigger_deliveries(route@.extension_id, tv.take(t + 1), e) =~= prefix.push(d));
                        assert forall|ext: Seq<char>, trig: Seq<char>| #[trigger] batch_of(self@, ext, trig)
                            == after_deliveries(start, prefix.push(d), e, now_ms, ext, trig) by {
                            lemma_after_deliveries_push(start, prefix, d, e, now_ms, ext, trig);
                        }
                    } else {
                        assert(done + trigger_deliveries(route@.extension_id, tv.take(t + 1), e) =~= prefix);
                    }
                }
                assert(tv.take(tv.len() as int) =~= tv);
            }
        }
        assert(rv.take(routes@.len() as int) =~= rv);
    }

    /// Take out the batches whose debounce has elapsed, in order; the others
    /// stay, in order.
    pub fn take_due_batches(&mut self, now_ms: u64) -> (r: Vec<PendingEventBatch>)
        requires
            batches_wf(old(self)@),
        ensures
            batches_wf(final(self)@),
            batch_views(r@) == old(self)@.filter(|b: BatchView| b.due_at_ms <= now_ms),
            final(self)@ == old(self)@.filter(|b: BatchView| b.due_at_ms > now_ms),
    {
        let ghost start = self@;
        let mut due: Vec<PendingEventBatch> = Vec::new();
        let mut waiting: Vec<PendingEventBatch> = Vec::new();
        let mut all = Vec::new();
        std::mem::swap(&mut all, &mut self.batches);
        assert(batch_views(all@) == start);
        let ghost mut picked: Seq<int> = Seq::empty();
        let mut i: usize = 0;
        proof {
            reveal(Seq::filter);
            assert(start.take(0) =~= Seq::<BatchView>::empty());
        }
        while i < all.len()
            invariant
                batch_views(all@) == start,
                i <= all@.len(),
                batch_views(due@) == start.take(i as int).filter(|b: BatchView| b.due_at_ms <= now_ms),
                batch_views(waiting@) == start.take(i as int).filter(|b: BatchView| b.due_at_ms > now_ms),
                picked.len() == waiting@.len(),
                forall|a: int| 0 <= a < picked.len() ==> 0 <= #[trigger] picked[a] < i,
                forall|a: int, b: int| 0 <= a < b < picked.len() ==> #[trigger] picked[a] < #[trigger] picked[b],
                forall|a: int| 0 <= a < picked.len() ==> start[#[trigger] picked[a]] == batch_views(waiting@)[a],
            decreases all@.len() - i,
        {
            let b = &all[i];
            assert(start.take(i + 1).drop_last() =~= start.take(i as int));
            assert(start.take(i + 1).last() == b@);
            proof {
                reveal(Seq::filter);
            }
            let copy = PendingEventBatch {
                extension_id: b.extension_id.clone(),
                trigger_id: b.trigger_id.clone(),
                due_at_ms: b.due_at_ms,
                events: clone_events(&b.events),
            };
            if b.due_at_ms <= now_ms {
                let ghost before = batch_views(due@);
                due.push(copy);
                assert(batch_views(due@) =~= before.push(b@));
            } else {
                let ghost before = batch_views(waiting@);
                waiting.push(copy);
                assert(batch_views(waiting@) =~= before.push(b@));
                proof {
                    picked = picked.push(i as int);
                }
            }
            i += 1;
        }
        assert(start.take(all@.len() as int) =~= start);
        proof {
            let wv = batch_views(waiting@);
            assert forall|a: int, b: int| 0 <= a < b < wv.len() implies (#[trigger] wv[a].extension_id
                != #[trigger] wv[b].extension_id || wv[a].trigger_id != wv[b].trigger_id) by {
                assert(start[picked[a]] == wv[a]);
                assert(start[picked[b]] == wv[b]);
            }
        }
        self.batches = waiting;
        due
    }
}

fn clone_events(v: &Vec<ExtensionEventPayload>) -> (r: Vec<ExtensionEventPayload>)
    ensures
        event_views(r@) == event_views(v@),
{
    let mut out: Vec<ExtensionEventPayload> = Vec::new();
    for i in 0..v.len()
        invariant
            out@.len() == i,
            forall|j: int| 0 <= j < i ==> #[trigger] out@[j]@ == v@[j]@,
    {
        out.push(v[i].duplicate());
    }
    assert(event_views(out@) =~= event_views(v@));
    out
}

proof fn lemma_trigger_deliveries_from(ext: Seq<char>, ts: Seq<TriggerView>, e: EventView, k: int)
    requires
        0 <= k < trigger_deliveries(ext, ts, e).len(),
    ensures
        trigger_deliveries(ext, ts, e)[k].extension_id == ext,
        exists|j: int|
            0 <= j < ts.len() && (#[trigger] ts[j]).id == trigger_deliveries(ext, ts, e)[k].trigger_id
                && ts[j].event_type == e.event_type && ts[j].subscribed,
    decreases ts.len(),
{
    let rest = trigger_deliveries(ext, ts.drop_last(), e);
    if k < rest.len() {
        lemma_trigger_deliveries_from(ext, ts.drop_last(), e, k);
        let j = choose|j: int|
            0 <= j < ts.drop_last().len() && (#[trigger] ts.drop_last()[j]).id == rest[k].trigger_id
                && ts.drop_last()[j].event_type == e.event_type && ts.drop_last()[j].subscribed;
        assert(ts[j] == ts.drop_last()[j]);
    } else {
        assert(ts[ts.len() - 1] == ts.last());
    }
}

/// Every delivery of a repository event goes to a subscribed trigger of the
/// event's type of a trusted extension, and never to the extension whose run
/// caused the event.
pub proof fn law_events_reach_only_trusted_subscribers(routes: Seq<RouteView>, e: EventView, k: int)
    requires
        0 <= k < deliveries(routes, e).len(),
    ensures
        deliveries(routes, e)[k].extension_id != e.origin_extension_id->0 || e.origin_extension_id is None,
        exists|r: int|
            0 <= r < routes.len() && (#[trigger] routes[r]).extension_id == deliveries(routes, e)[k].extension_id
                && routes[r].trusted && (exists|j: int|
                0 <= j < routes[r].triggers.len() && (#[trigger] routes[r].triggers[j]).id == deliveries(
                    routes,
                    e,
                )[k].trigger_id && routes[r].triggers[j].event_type == e.event_type
                    && routes[r].triggers[j].subscribed),
    decreases routes.len(),
{
    let rest = deliveries(routes.drop_last(), e);
    if k < rest.len() {
        law_events_reach_only_trusted_subscribers(routes.drop_last(), e, k);
        let r = choose|r: int|
            0 <= r < routes.drop_last().len() && (#[trigger] routes.drop_last()[r]).extension_id
                == rest[k].extension_id && routes.drop_last()[r].trusted && (exists|j: int|
                0 <= j < routes.drop_last()[r].triggers.len() && (#[trigger] routes.drop_last()[r].triggers[j]).id
                    == rest[k].trigger_id && routes.drop_last()[r].triggers[j].event_type == e.event_type
                    && routes.drop_last()[r].triggers[j].subscribed);
        assert(routes[r] == routes.drop_last()[r]);
    } else {
        let last = routes.last();
        lemma_trigger_deliveries_from(last.extension_id, last.triggers, e, k - rest.len());
        assert(routes[routes.len() - 1] == last);
    }
}

/// Within a batch, events name distinct repositories.
pub open spec fn one_event_per_tab(es: Seq<EventView>) -> bool {
    forall|a: int, b: int|
        0 <= a < b < es.len() && event_tab(es[a]) is Some ==> #[trigger] event_tab(es[a]) != #[trigger] event_tab(
            es[b],
        )
}

proof fn lemma_without_tab_sub(es: Seq<EventView>, tab: Option<TabId>)
    ensures
        forall|a: int|
            0 <= a < without_tab(es, tab).len() ==> exists|m: int|
                0 <= m < es.len() && es[m] == #[trigger] without_tab(es, tab)[a],
        tab is Some ==> forall|a: int|
            0 <= a < without_tab(es, tab).len() ==> event_tab(#[trigger] without_tab(es, tab)[a]) != tab,
        one_event_per_tab(es) ==> one_event_per_tab(without_tab(es, tab)),
    decreases es.len(),
{
    if es.len() > 0 {
        let d = es.drop_last();
        lemma_without_tab_sub(d, tab);
        let w = without_tab(es, tab);
        let wd = without_tab(d, tab);
        assert forall|a: int| 0 <= a < w.len() implies exists|m: int| 0 <= m < es.len() && es[m] == #[trigger] w[a] by {
            if a < wd.len() {
                assert(w[a] == wd[a]);
                let m = choose|m: int| 0 <= m < d.len() && d[m] == #[trigger] wd[a];
                assert(es[m] == d[m]);
            } else {
                assert(es[es.len() - 1] == w[a]);
            }
        }
        if one_event_per_tab(es) {
            assert forall|a: int| 0 <= a < d.len() && 0 <= a implies d[a] == es[a] by {}
            assert(one_event_per_tab(d)) by {
                assert forall|a: int, b: int| 0 <= a < b < d.len() && event_tab(d[a]) is Some implies #[trigger] event_tab(
                    d[a],
                ) != #[trigger] event_tab(d[b]) by {
                    assert(d[a] == es[a]);
                    assert(d[b] == es[b]);
                }
            }
            assert forall|a: int, b: int| 0 <= a < b < w.len() && event_tab(w[a]) is Some implies #[trigger] event_tab(
                w[a],
            ) != #[trigger] event_tab(w[b]) by {
                if b < wd.len() {
                    assert(w[a] == wd[a]);
                    assert(w[b] == wd[b]);
                } else {
                    assert(w[a] == wd[a]);
                    assert(w[b] == es.last());
                    let m = choose|m: int| 0 <= m < d.len() && d[m] == #[trigger] wd[a];
                    assert(d[m] == es[m]);
                    assert(es[es.len() - 1] == es.last());
                }
            }
        }
    }
}

/// Debouncing keeps at most one event per repository in each batch: the
/// newest event about a repository replaces the older ones.
pub proof fn law_batches_hold_one_event_per_repository(prior: Option<BatchView>, d: Delivery, e: EventView, now_ms: u64)
    requires
        prior matches Some(b) ==> one_event_per_tab(b.events),
    ensures
        one_event_per_tab(add_to_batch(prior, d, e, now_ms).events),
        add_to_batch(prior, d, e, now_ms).events.last() == (EventView { trigger_id: d.trigger_id, ..e }),
{
    let base = match prior {
        Some(b) => without_tab(b.events, event_tab(e)),
        None => seq![],
    };
    let out = add_to_batch(prior, d, e, now_ms).events;
    let routed = EventView { trigger_id: d.trigger_id, ..e };
    assert(out == base.push(routed));
    match prior {
        Some(b) => {
            lemma_without_tab_sub(b.events, event_tab(e));
        },
        None => {},
    }
    assert(event_tab(routed) == event_tab(e));
    assert forall|a: int, b: int| 0 <= a < b < out.len() && event_tab(out[a]) is Some implies #[trigger] event_tab(
        out[a],
    ) != #[trigger] event_tab(out[b]) by {
        assert(out[a] == base[a]);
        if b < base.len() {
            assert(out[b] == base[b]);
        }
    }
}

proof fn lemma_current_events_quiet(m: Seq<SnapshotView>, cur: Seq<SnapshotView>, os: Seq<OriginView>, at: i64)
    requires
        forall|k: int| 0 <= k < cur.len() ==> last_of_tab(m, (#[trigger] cur[k]).tab_id) == Some(cur[k]),
    ensures
        current_events(m, cur, os, at) == Seq::<EventView>::empty(),
    decreases cur.len(),
{
    if cur.len() > 0 {
        assert forall|k: int| 0 <= k < cur.drop_last().len() implies last_of_tab(
            m,
            (#[trigger] cur.drop_last()[k]).tab_id,
        ) == Some(cur.drop_last()[k]) by {
            assert(cur.drop_last()[k] == cur[k]);
        }
        lemma_current_events_quiet(m, cur.drop_last(), os, at);
        assert(cur.last() == cur[cur.len() - 1]);
        assert(!spec_state_changed(cur.last(), cur.last()));
        assert(sample_events(m, cur.last(), os, at) =~= Seq::<EventView>::empty());
    }
}

proof fn lemma_closed_events_quiet(prev: Seq<SnapshotView>, m: Seq<SnapshotView>, at: i64)
    requires
        forall|k: int| 0 <= k < prev.len() ==> has_tab(m, #[trigger] prev[k].tab_id),
    ensures
        closed_events(prev, m, at) == Seq::<EventView>::empty(),
    decreases prev.len(),
{
    if prev.len() > 0 {
        assert forall|k: int| 0 <= k < prev.drop_last().len() implies has_tab(m, #[trigger] prev.drop_last()[k].tab_id) by {
            assert(prev.drop_last()[k] == prev[k]);
        }
        lemma_closed_events_quiet(prev.drop_last(), m, at);
        assert(has_tab(m, prev[prev.len() - 1].tab_id));
    }
}

/// Sampling the same repositories twice is quiet: the second sample yields
/// no event.
pub proof fn law_unchanged_sample_is_quiet(m: Seq<SnapshotView>, os: Seq<OriginView>, at: i64)
    requires
        indexed(m),
    ensures
        current_events(m, m, os, at) + closed_events(m, m, at) == Seq::<EventView>::empty(),
{
    assert forall|k: int| 0 <= k < m.len() implies last_of_tab(m, (#[trigger] m[k]).tab_id) == Some(m[k]) by {
        lemma_indexed_lookup(m, k);
    }
    lemma_current_events_quiet(m, m, os, at);
    assert forall|k: int| 0 <= k < m.len() implies has_tab(m, #[trigger] m[k].tab_id) by {
        assert(m[k].tab_id == m[k].tab_id);
    }
    lemma_closed_events_quiet(m, m, at);
    assert(Seq::<EventView>::empty() + Seq::<EventView>::empty() =~= Seq::<EventView>::empty());
}

/// The longest interval, in minutes, that a schedule can be compared with:
/// the calendar library refuses (panics on) longer durations.
pub const MAX_INTERVAL_MINUTES: i64 = 153722867280912;

/// The interval of an interval schedule in nanoseconds: the configured
/// minutes, at least one.
pub open spec fn interval_ns(minutes: i64) -> int {
    (if minutes < 1 {
        1
    } else {
        minutes as int
    }) * 60_000_000_000
}

/// Whether an interval schedule last fired at `last_ns` is due at `now_ns`.
pub fn interval_elapsed(last_ns: i128, now_ns: i128, minutes: i64) -> (r: bool)
    requires
        minutes <= MAX_INTERVAL_MINUTES,
    ensures
        r == (now_ns - last_ns >= interval_ns(minutes)),
{
    let m: i128 = if minutes < 1 {
        1
    } else {
        minutes as i128
    };
    let interval: i128 = m * 60_000_000_000;
    if last_ns > i128::MAX - interval {
        false
    } else {
        now_ns >= last_ns + interval
    }
}

/// When each interval schedule last fired, by extension id and trigger id.
pub struct IntervalTicks {
    last: KeyedMap<(String, String), i128>,
}

/// The time a schedule counts from: when it last fired, or, for one not seen
/// before, the previous poll.
pub open spec fn tick_base(last: Map<(Seq<char>, Seq<char>), i128>, key: (Seq<char>, Seq<char>), previous_ns: i128) -> i128 {
    if last.contains_key(key) {
        last[key]
    } else {
        previous_ns
    }
}

impl IntervalTicks {
    /// When each schedule last fired.
    pub closed spec fn view(&self) -> Map<(Seq<char>, Seq<char>), i128> {
        self.last@
    }

    /// The table's internal invariant.
    pub closed spec fn wf(&self) -> bool {
        self.last.wf()
    }

    /// A table in which no schedule has fired.
    pub fn new() -> (r: IntervalTicks)
        ensures
            r.wf(),
            r.view() == Map::<(Seq<char>, Seq<char>), i128>::empty(),
    {
        IntervalTicks { last: KeyedMap::new() }
    }

    /// Forget when every schedule last fired (after the extensions were
    /// reloaded: the anchors belong to the old definitions).
    pub fn clear(&mut self)
        requires
            old(self).wf(),
        ensures
            final(self).wf(),
            final(self).view() == Map::<(Seq<char>, Seq<char>), i128>::empty(),
    {
        self.last.clear();
    }

    /// Whether the interval schedule `trigger_id` of `extension_id`, every
    /// `minutes` minutes, is due at `now_ns`, the last poll having been at
    /// `previous_ns`. A schedule not seen before counts from the previous
    /// poll; one that is due is recorded as fired now.
    pub fn poll(&mut self, extension_id: &str, trigger_id: &str, previous_ns: i128, now_ns: i128, minutes: i64) -> (r: bool)
        requires
            old(self).wf(),
            minutes <= MAX_INTERVAL_MINUTES,
        ensures
            final(self).wf(),
            r == (now_ns - tick_base(old(self).view(), (extension_id@, trigger_id@), previous_ns) >= interval_ns(minutes)),
            final(self).view() == old(self).view().insert(
                (extension_id@, trigger_id@),
                if r {
                    now_ns
                } else {
                    tick_base(old(self).view(), (extension_id@, trigger_id@), previous_ns)
                },
            ),
    {
        let key = (owned(extension_id), owned(trigger_id));
        let base: i128 = match self.last.get(&key) {
            Some(t) => *t,
            None => previous_ns,
        };
        let due = interval_elapsed(base, now_ns, minutes);
        if due {
            self.last.insert(key, now_ns);
        } else {
            self.last.insert(key, base);
        }
        due
    }
}

/// Polling a schedule again at the time it fired does not fire it again.
pub proof fn law_fired_schedule_waits(
    last: Map<(Seq<char>, Seq<char>), i128>,
    key: (Seq<char>, Seq<char>),
    previous_ns: i128,
    now_ns: i128,
    minutes: i64,
)
    requires
        now_ns - tick_base(last, key, previous_ns) >= interval_ns(minutes),
    ensures
        !(now_ns - tick_base(last.insert(key, now_ns), key, previous_ns) >= interval_ns(minutes)),
{
}


/// The kinds of schedule trigger the workspace polls.
#[derive(Clone, Copy, Debug, PartialEq, Eq, Structural)]
pub enum ScheduleKind {
    /// `schedule.daily`: once a day at a configured time.
    Daily,
    /// `schedule.interval`: every so many minutes.
    Interval,
}

/// The schedule kind of an event type, if it is one the workspace polls.
pub open spec fn spec_schedule_kind(event_type: Seq<char>) -> Option<ScheduleKind> {
    if event_type == "schedule.daily"@ {
        Some(ScheduleKind::Daily)
    } else if event_type == "schedule.interval"@ {
        Some(ScheduleKind::Interval)
    } else {
        None
    }
}

/// Whether, and as what, a trigger of an extension is polled on the clock:
/// only subscribed schedule triggers of trusted extensions are.
pub open spec fn polled_schedule(trusted: bool, t: TriggerView) -> Option<ScheduleKind> {
    if trusted && t.subscribed {
        spec_schedule_kind(t.event_type)
    } else {
        None
    }
}

/// The positions and kinds of the polled triggers among `ts`, in order.
pub open spec fn schedule_list(trusted: bool, ts: Seq<TriggerView>) -> Seq<(int, ScheduleKind)>
    decreases ts.len(),
{
    if ts.len() == 0 {
        seq![]
    } else {
        let before = schedule_list(trusted, ts.drop_last());
        match polled_schedule(trusted, ts.last()) {
            Some(k) => before.push((ts.len() - 1, k)),
            None => before,
        }
    }
}

/// The triggers of `route` that the clock polls, by position, with their
/// kind.
pub fn scheduled_triggers(route: &ExtensionRoute) -> (r: Vec<(usize, ScheduleKind)>)
    ensures
        r@.map_values(|x: (usize, ScheduleKind)| (x.0 as int, x.1)) == schedule_list(route@.trusted, route@.triggers),
{
    let ghost ts = route@.triggers;
    let mut out: Vec<(usize, ScheduleKind)> = Vec::new();
    proof {
        reveal_strlit("schedule.daily");
        reveal_strlit("schedule.interval");
    }
    for i in 0..route.triggers.len()
        invariant
            ts == route@.triggers,
            ts.len() == route.triggers@.len(),
            out@.map_values(|x: (usize, ScheduleKind)| (x.0 as int, x.1)) == schedule_list(
                route@.trusted,
                ts.take(i as int),
            ),
    {
        let t = &route.triggers[i];
        assert(ts[i as int] == t@);
        assert(ts.take(i + 1).drop_last() =~= ts.take(i as int));
        assert(ts.take(i + 1).last() == t@);
        let kind = if route.trusted && t.subscribed {
            if str_eq(t.event_type.as_str(), "schedule.daily") {
                Some(ScheduleKind::Daily)
            } else if str_eq(t.event_type.as_str(), "schedule.interval") {
                Some(ScheduleKind::Interval)
            } else {
                None
            }
        } else {
            None
        };
        let ghost before = out@;
        match kind {
            Some(k) => {
                out.push((i, k));
                assert(out@.map_values(|x: (usize, ScheduleKind)| (x.0 as int, x.1)) =~= before.map_values(
                    |x: (usize, ScheduleKind)| (x.0 as int, x.1),
                ).push((i as int, k)));
            },
            None => {},
        }
    }
    assert(ts.take(ts.len() as int) =~= ts);
    out
}

/// What an extension's schedules remember: the last occurrence each daily
/// trigger ran for, and the last scheduled date.
pub struct ScheduleRecord {
    pub last_event_occurrences: KeyedMap<String, String>,
    pub last_scheduled_date: Option<String>,
}

impl ScheduleRecord {
    /// Whether occurrence `occurrence_key` of trigger `trigger_id` has not
    /// run yet (a daily schedule runs once per occurrence).
    pub fn is_new_occurrence(&self, trigger_id: &str, occurrence_key: &str) -> (r: bool)
        requires
            self.last_event_occurrences.wf(),
        ensures
            r == !(self.last_event_occurrences@.contains_key(trigger_id@)
                && self.last_event_occurrences@[trigger_id@]@ == occurrence_key@),
    {
        match self.last_event_occurrences.get(&owned(trigger_id)) {
            Some(last) => !str_eq(last.as_str(), occurrence_key),
            None => true,
        }
    }

    /// Remember that occurrence `occurrence_key` of trigger `trigger_id` was
    /// queued.
    pub fn record(&mut self, trigger_id: String, occurrence_key: String)
        requires
            old(self).last_event_occurrences.wf(),
        ensures
            final(self).last_event_occurrences.wf(),
            final(self).last_event_occurrences@ == old(self).last_event_occurrences@.insert(trigger_id@, occurrence_key),
            opt_view(final(self).last_scheduled_date) == Some(occurrence_key@),
    {
        self.last_scheduled_date = Some(occurrence_key.clone());
        self.last_event_occurrences.insert(trigger_id, occurrence_key);
    }
}

} // verus!
