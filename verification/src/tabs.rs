//! Workspace tab bookkeeping: which tabs are open, which one is active, how
//! opening a repository reuses an existing tab or a start page, where the
//! selection goes when a tab closes, and what the configuration persists.
//!
//! A tab is either an open repository or an empty start page. Repository
//! tabs are identified by a key, the canonical form of their path, which the
//! application computes from the file system; start pages carry the key
//! `welcome:<id>`.
use vstd::prelude::*;
use crate::text::{
    decimal, has_prefix, lemma_decimal_injective, opt_view, owned, push_decimal, str_eq, views,
};

verus! {

/// Identifier of a workspace tab.
pub type TabId = u64;

/// Unique key for a start-page tab.
pub open spec fn spec_welcome_tab_key(id: TabId) -> Seq<char> {
    "welcome:"@ + decimal(id as nat)
}

/// Unique key for a start-page tab. Repository keys are canonical paths, so
/// this prefix cannot collide with them.
pub fn welcome_tab_key(id: TabId) -> (r: String)
    ensures
        r@ == spec_welcome_tab_key(id),
{
    let mut key = owned("welcome:");
    push_decimal(&mut key, id);
    key
}

/// Whether a key has the shape of an absolute path, as canonical
/// repository paths have: it starts with `/` or `\`, or with a drive letter
/// and `:`.
pub open spec fn path_shaped(key: Seq<char>) -> bool {
    key.len() > 0 && (key[0] == '/' || key[0] == '\\' || (key.len() >= 2 && (('A' <= key[0] && key[0] <= 'Z') || (
    'a' <= key[0] && key[0] <= 'z')) && key[1] == ':'))
}

/// Repository keys cannot collide with start-page keys: a key shaped like
/// an absolute path never carries the `welcome:` prefix, so it is no
/// start page's key.
pub proof fn law_path_keys_are_not_welcome_keys(key: Seq<char>, id: TabId)
    requires
        path_shaped(key),
    ensures
        !has_prefix(key, "welcome:"@),
        key != spec_welcome_tab_key(id),
{
    reveal_strlit("welcome:");
    if has_prefix(key, "welcome:"@) {
        assert(key.subrange(0, 8)[0] == key[0]);
        assert(key.subrange(0, 8)[1] == key[1]);
    }
    if key == spec_welcome_tab_key(id) {
        assert(key[0] == 'w');
        assert(key[1] == 'e');
    }
}

/// What a tab shows.
#[derive(Clone, Copy, Debug, PartialEq, Eq, Structural)]
pub enum TabKind {
    /// An empty start page that turns into a repository tab once the user
    /// opens a repository from it.
    Welcome,
    /// An open repository.
    Repo,
}

/// One workspace tab.
pub struct TabEntry {
    pub id: TabId,
    pub key: String,
    pub path: Option<String>,
    pub kind: TabKind,
    /// Whether the tab is restored on the next start.
    pub persisted: bool,
}

/// Mathematical form of a tab.
pub struct EntryView {
    pub id: TabId,
    pub key: Seq<char>,
    pub path: Option<Seq<char>>,
    pub kind: TabKind,
    pub persisted: bool,
}

impl View for TabEntry {
    type V = EntryView;

    open spec fn view(&self) -> EntryView {
        EntryView {
            id: self.id,
            key: self.key@,
            path: opt_view(self.path),
            kind: self.kind,
            persisted: self.persisted,
        }
    }
}

/// The open tabs in display order, the active one, and the next identifier.
pub struct TabRegistry {
    tabs: Vec<TabEntry>,
    active_tab: Option<TabId>,
    next_tab_id: TabId,
}

/// Mathematical form of the registry.
pub struct RegistryView {
    pub tabs: Seq<EntryView>,
    pub active: Option<TabId>,
    pub next_id: TabId,
}

pub open spec fn entry_views(v: Seq<TabEntry>) -> Seq<EntryView> {
    v.map_values(|e: TabEntry| e@)
}

impl View for TabRegistry {
    type V = RegistryView;

    closed spec fn view(&self) -> RegistryView {
        RegistryView { tabs: entry_views(self.tabs@), active: self.active_tab, next_id: self.next_tab_id }
    }
}

/// Whether some tab has identifier `id`.
pub open spec fn has_id(tabs: Seq<EntryView>, id: TabId) -> bool {
    exists|i: int| 0 <= i < tabs.len() && #[trigger] tabs[i].id == id
}

/// Whether some tab has key `key`.
pub open spec fn has_key(tabs: Seq<EntryView>, key: Seq<char>) -> bool {
    exists|i: int| 0 <= i < tabs.len() && #[trigger] tabs[i].key == key
}

/// The identifiers of the tabs in display order.
pub open spec fn ids(tabs: Seq<EntryView>) -> Seq<TabId> {
    tabs.map_values(|e: EntryView| e.id)
}

/// A start page carries the welcome key of its identifier and no path; a
/// repository tab has a path and a key outside the welcome namespace.
pub open spec fn entry_wf(e: EntryView) -> bool {
    match e.kind {
        TabKind::Welcome => e.path is None && e.key == spec_welcome_tab_key(e.id),
        TabKind::Repo => e.path is Some && !has_prefix(e.key, "welcome:"@),
    }
}

/// Well-formedness: identifiers are distinct and below the next identifier,
/// keys are distinct, repository tabs have a path and start pages do not,
/// and the active identifier names an open tab.
pub open spec fn registry_wf(r: RegistryView) -> bool {
    &&& forall|i: int, j: int|
        0 <= i < r.tabs.len() && 0 <= j < r.tabs.len() && i != j ==> #[trigger] r.tabs[i].id
            != #[trigger] r.tabs[j].id
    &&& forall|i: int, j: int|
        0 <= i < r.tabs.len() && 0 <= j < r.tabs.len() && i != j ==> #[trigger] r.tabs[i].key
            != #[trigger] r.tabs[j].key
    &&& forall|i: int| 0 <= i < r.tabs.len() ==> #[trigger] r.tabs[i].id < r.next_id
    &&& forall|i: int| 0 <= i < r.tabs.len() ==> entry_wf(#[trigger] r.tabs[i])
    &&& match r.active {
        Some(id) => has_id(r.tabs, id),
        None => true,
    }
}

/// The tab that becomes active after `closed` closes: the current active
/// tab when another one was active; otherwise the right neighbour of the
/// closed tab, else its left neighbour, else none.
pub open spec fn spec_fallback_after_close(order: Seq<TabId>, active: Option<TabId>, closed: TabId) -> Option<TabId> {
    if active != Some(closed) {
        active
    } else if exists|i: int| 0 <= i < order.len() && order[i] == closed {
        let i = choose|i: int| 0 <= i < order.len() && order[i] == closed;
        if i + 1 < order.len() {
            Some(order[i + 1])
        } else if i > 0 {
            Some(order[i - 1])
        } else {
            None
        }
    } else {
        None
    }
}

/// The tab that becomes active after `closed` closes.
pub fn fallback_after_close(order: &[TabId], active: Option<TabId>, closed: TabId) -> (r: Option<TabId>)
    requires
        forall|i: int, j: int|
            0 <= i < order@.len() && 0 <= j < order@.len() && i != j ==> order@[i] != order@[j],
    ensures
        r == spec_fallback_after_close(order@, active, closed),
{
    if active != Some(closed) {
        return active;
    }
    let mut i: usize = 0;
    while i < order.len()
        invariant
            i <= order@.len(),
            forall|j: int| 0 <= j < i ==> order@[j] != closed,
            forall|a: int, b: int|
                0 <= a < order@.len() && 0 <= b < order@.len() && a != b ==> order@[a] != order@[b],
            active == Some(closed),
        decreases order@.len() - i,
    {
        if order[i] == closed {
            let ghost k = choose|k: int| 0 <= k < order@.len() && order@[k] == closed;
            assert(k == i);
            if i + 1 < order.len() {
                return Some(order[i + 1]);
            } else if i > 0 {
                return Some(order[i - 1]);
            } else {
                return None;
            }
        }
        i += 1;
    }
    None
}

/// Whether switching to a tab should refresh it: only when the selection
/// changed and the tab had already loaded, so the initial load is not
/// doubled.
pub open spec fn spec_should_refresh_after_switch(changed: bool, was_opened: bool) -> bool {
    changed && was_opened
}

pub fn should_refresh_after_switch(changed: bool, was_opened: bool) -> (r: bool)
    ensures
        r == spec_should_refresh_after_switch(changed, was_opened),
{
    changed && was_opened
}

/// How a request to open a repository path was served.
#[derive(Clone, Copy, Debug, PartialEq, Eq)]
pub enum OpenOutcome {
    /// The repository was already open in tab `id`, which is now selected; a
    /// start page that requested the open was closed.
    SelectedExisting { id: TabId, removed_welcome: Option<TabId> },
    /// The active start page `id` now hosts the repository.
    FilledWelcome { id: TabId },
    /// A new repository tab `id` was added (and activated when asked).
    Added { id: TabId },
}

impl TabRegistry {
    pub closed spec fn wf(&self) -> bool {
        registry_wf(self@)
    }

    /// No tabs, nothing active, identifiers starting at 1.
    pub fn new() -> (r: TabRegistry)
        ensures
            r.wf(),
            r@.tabs.len() == 0,
            r@.active is None,
            r@.next_id == 1,
    {
        TabRegistry { tabs: Vec::new(), active_tab: None, next_tab_id: 1 }
    }

    /// The active tab.
    pub fn active_tab(&self) -> (r: Option<TabId>)
        ensures
            r == self@.active,
    {
        self.active_tab
    }

    /// The identifier the next new tab receives.
    pub fn next_tab_id(&self) -> (r: TabId)
        ensures
            r == self@.next_id,
    {
        self.next_tab_id
    }

    /// The open tabs in display order.
    pub fn tabs(&self) -> (r: &Vec<TabEntry>)
        ensures
            entry_views(r@) == self@.tabs,
    {
        &self.tabs
    }

    /// Position of the tab with identifier `id`.
    pub fn position_of(&self, id: TabId) -> (r: Option<usize>)
        ensures
            match r {
                Some(i) => i < self@.tabs.len() && self@.tabs[i as int].id == id,
                None => !has_id(self@.tabs, id),
            },
    {
        let mut i: usize = 0;
        while i < self.tabs.len()
            invariant
                i <= self.tabs@.len(),
                forall|j: int| 0 <= j < i ==> self.tabs@[j].id != id,
            decreases self.tabs@.len() - i,
        {
            if self.tabs[i].id == id {
                assert(self@.tabs[i as int] == self.tabs@[i as int]@);
                return Some(i);
            }
            i += 1;
        }
        assert forall|j: int| 0 <= j < self@.tabs.len() implies self@.tabs[j].id != id by {
            assert(self@.tabs[j] == self.tabs@[j]@);
        }
        None
    }

    /// The tab whose key is `key`.
    pub fn find_by_key(&self, key: &str) -> (r: Option<TabId>)
        ensures
            match r {
                Some(id) => exists|i: int|
                    0 <= i < self@.tabs.len() && #[trigger] self@.tabs[i].key == key@
                        && self@.tabs[i].id == id,
                None => !has_key(self@.tabs, key@),
            },
    {
        let mut i: usize = 0;
        while i < self.tabs.len()
            invariant
                i <= self.tabs@.len(),
                forall|j: int| 0 <= j < i ==> self.tabs@[j].key@ != key@,
            decreases self.tabs@.len() - i,
        {
            if str_eq(self.tabs[i].key.as_str(), key) {
                assert(self@.tabs[i as int] == self.tabs@[i as int]@);
                assert(self@.tabs[i as int].key == key@);
                return Some(self.tabs[i].id);
            }
            i += 1;
        }
        assert forall|j: int| 0 <= j < self@.tabs.len() implies self@.tabs[j].key != key@ by {
            assert(self@.tabs[j] == self.tabs@[j]@);
        }
        None
    }

    /// The active tab when it is a start page.
    pub fn active_welcome_tab_id(&self) -> (r: Option<TabId>)
        requires
            self.wf(),
        ensures
            r == match self@.active {
                Some(id) => if exists|i: int|
                    0 <= i < self@.tabs.len() && #[trigger] self@.tabs[i].id == id
                        && self@.tabs[i].kind == TabKind::Welcome {
                    Some(id)
                } else {
                    None
                },
                None => None,
            },
    {
        let active = match self.active_tab {
            Some(id) => id,
            None => return None,
        };
        match self.position_of(active) {
            Some(i) => {
                if self.tabs[i].kind == TabKind::Welcome {
                    assert(self@.tabs[i as int] == self.tabs@[i as int]@);
                    Some(active)
                } else {
                    assert forall|j: int|
                        0 <= j < self@.tabs.len() && #[trigger] self@.tabs[j].id == active implies self@.tabs[j].kind
                        != TabKind::Welcome by {
                        assert(registry_wf(self@));
                        if j != i {
                            assert(self@.tabs[j].id != self@.tabs[i as int].id);
                        }
                        assert(self@.tabs[i as int] == self.tabs@[i as int]@);
                    }
                    None
                }
            },
            None => None,
        }
    }

    /// Make `id` the active tab. Returns whether the selection changed; an
    /// unknown identifier changes nothing.
    pub fn activate_tab(&mut self, id: TabId) -> (changed: bool)
        requires
            old(self).wf(),
        ensures
            final(self).wf(),
            final(self)@.tabs == old(self)@.tabs,
            final(self)@.next_id == old(self)@.next_id,
            final(self)@.active == if has_id(old(self)@.tabs, id) {
                Some(id)
            } else {
                old(self)@.active
            },
            changed == (has_id(old(self)@.tabs, id) && old(self)@.active != Some(id)),
    {
        if self.position_of(id).is_none() {
            return false;
        }
        let changed = self.active_tab != Some(id);
        self.active_tab = Some(id);
        changed
    }

    /// Whether ids can still be handed out.
    pub open spec fn can_allocate(&self) -> bool {
        self@.next_id < u64::MAX
    }

    /// The welcome key of the next identifier is not open yet.
    proof fn lemma_welcome_key_fresh(v: RegistryView)
        requires
            registry_wf(v),
        ensures
            !has_key(v.tabs, spec_welcome_tab_key(v.next_id)),
    {
        let k = spec_welcome_tab_key(v.next_id);
        assert(has_prefix(k, "welcome:"@)) by {
            assert(k.subrange(0, "welcome:"@.len() as int) =~= "welcome:"@);
        }
        assert forall|i: int| 0 <= i < v.tabs.len() implies #[trigger] v.tabs[i].key != k by {
            assert(entry_wf(v.tabs[i]));
            if v.tabs[i].kind == TabKind::Welcome && v.tabs[i].key == k {
                let p = "welcome:"@;
                assert(decimal(v.tabs[i].id as nat) =~= k.subrange(p.len() as int, k.len() as int));
                assert(decimal(v.next_id as nat) =~= k.subrange(p.len() as int, k.len() as int));
                lemma_decimal_injective(v.tabs[i].id as nat, v.next_id as nat);
            }
        }
    }

    proof fn lemma_push_wf(old_view: RegistryView, entry: EntryView)
        requires
            registry_wf(old_view),
            entry.id == old_view.next_id,
            old_view.next_id < u64::MAX,
            !has_key(old_view.tabs, entry.key),
            entry_wf(entry),
        ensures
            registry_wf(
                RegistryView {
                    tabs: old_view.tabs.push(entry),
                    active: old_view.active,
                    next_id: (old_view.next_id + 1) as u64,
                },
            ),
    {
        let n = RegistryView {
            tabs: old_view.tabs.push(entry),
            active: old_view.active,
            next_id: (old_view.next_id + 1) as u64,
        };
        assert forall|i: int, j: int|
            0 <= i < n.tabs.len() && 0 <= j < n.tabs.len() && i != j implies #[trigger] n.tabs[i].key
            != #[trigger] n.tabs[j].key by {
            if i == old_view.tabs.len() as int {
                assert(n.tabs[j] == old_view.tabs[j]);
            } else if j == old_view.tabs.len() as int {
                assert(n.tabs[i] == old_view.tabs[i]);
            } else {
                assert(n.tabs[i] == old_view.tabs[i]);
                assert(n.tabs[j] == old_view.tabs[j]);
            }
        }
        assert forall|i: int, j: int|
            0 <= i < n.tabs.len() && 0 <= j < n.tabs.len() && i != j implies #[trigger] n.tabs[i].id
            != #[trigger] n.tabs[j].id by {
            if i == old_view.tabs.len() as int {
                assert(n.tabs[j] == old_view.tabs[j]);
            } else if j == old_view.tabs.len() as int {
                assert(n.tabs[i] == old_view.tabs[i]);
            } else {
                assert(n.tabs[i] == old_view.tabs[i]);
                assert(n.tabs[j] == old_view.tabs[j]);
            }
        }
        assert forall|i: int| 0 <= i < n.tabs.len() implies #[trigger] n.tabs[i].id < n.next_id by {
            if i < old_view.tabs.len() {
                assert(n.tabs[i] == old_view.tabs[i]);
            }
        }
        assert forall|i: int| 0 <= i < n.tabs.len() implies entry_wf(#[trigger] n.tabs[i]) by {
            if i < old_view.tabs.len() {
                assert(n.tabs[i] == old_view.tabs[i]);
            }
        }
        if let Some(a) = old_view.active {
            let k = choose|k: int| 0 <= k < old_view.tabs.len() && #[trigger] old_view.tabs[k].id == a;
            assert(n.tabs[k] == old_view.tabs[k]);
        }
    }

    /// Add a repository tab for `path` (keyed by `key`) unless a tab with
    /// that key is already open. Returns the new tab's identifier, or `None`
    /// when the key was already open (nothing changes then). `restored`
    /// marks the tab for persistence; `activate` selects it.
    pub fn add_repo_tab(&mut self, path: &str, key: &str, restored: bool, activate: bool) -> (r: Option<TabId>)
        requires
            old(self).wf(),
            old(self).can_allocate(),
            !has_prefix(key@, "welcome:"@),
        ensures
            final(self).wf(),
            has_key(old(self)@.tabs, key@) ==> r is None && final(self)@ == old(self)@,
            !has_key(old(self)@.tabs, key@) ==> {
                &&& r == Some(old(self)@.next_id)
                &&& final(self)@.tabs == old(self)@.tabs.push(
                    EntryView {
                        id: old(self)@.next_id,
                        key: key@,
                        path: Some(path@),
                        kind: TabKind::Repo,
                        persisted: restored,
                    },
                )
                &&& final(self)@.next_id == old(self)@.next_id + 1
                &&& final(self)@.active == if activate {
                    Some(old(self)@.next_id)
                } else {
                    old(self)@.active
                }
            },
    {
        if self.find_by_key(key).is_some() {
            return None;
        }
        let id = self.next_tab_id;
        let entry = TabEntry { id, key: owned(key), path: Some(owned(path)), kind: TabKind::Repo, persisted: restored };
        proof {
            Self::lemma_push_wf(self@, entry@);
        }
        self.tabs.push(entry);
        self.next_tab_id = self.next_tab_id + 1;
        assert(entry_views(self.tabs@) =~= entry_views(old(self).tabs@).push(entry@));
        if activate {
            assert(self@.tabs[self@.tabs.len() - 1].id == id);
            self.activate_tab(id);
        }
        Some(id)
    }

    proof fn lemma_remove_wf(v: RegistryView, idx: int, active: Option<TabId>)
        requires
            registry_wf(v),
            0 <= idx < v.tabs.len(),
            match active {
                Some(a) => has_id(v.tabs, a) && a != v.tabs[idx].id,
                None => true,
            },
        ensures
            registry_wf(RegistryView { tabs: v.tabs.remove(idx), active, next_id: v.next_id }),
    {
        let t = v.tabs.remove(idx);
        assert forall|i: int| 0 <= i < t.len() implies #[trigger] t[i] == v.tabs[if i < idx {
            i
        } else {
            i + 1
        }] by {}
        assert forall|i: int, j: int|
            0 <= i < t.len() && 0 <= j < t.len() && i != j implies #[trigger] t[i].id != #[trigger] t[j].id by {
            let a = if i < idx { i } else { i + 1 };
            let b = if j < idx { j } else { j + 1 };
            assert(t[i] == v.tabs[a]);
            assert(t[j] == v.tabs[b]);
        }
        assert forall|i: int, j: int|
            0 <= i < t.len() && 0 <= j < t.len() && i != j implies #[trigger] t[i].key != #[trigger] t[j].key by {
            let a = if i < idx { i } else { i + 1 };
            let b = if j < idx { j } else { j + 1 };
            assert(t[i] == v.tabs[a]);
            assert(t[j] == v.tabs[b]);
        }
        assert forall|i: int| 0 <= i < t.len() implies #[trigger] t[i].id < v.next_id by {
            let a = if i < idx { i } else { i + 1 };
            assert(t[i] == v.tabs[a]);
        }
        assert forall|i: int| 0 <= i < t.len() implies entry_wf(#[trigger] t[i]) by {
            let a = if i < idx { i } else { i + 1 };
            assert(t[i] == v.tabs[a]);
        }
        if let Some(a) = active {
            let k = choose|k: int| 0 <= k < v.tabs.len() && #[trigger] v.tabs[k].id == a;
            assert(k != idx);
            let m = if k < idx { k } else { k - 1 };
            assert(t[m] == v.tabs[k]);
        }
    }

    proof fn lemma_replace_wf(v: RegistryView, idx: int, e: EntryView)
        requires
            registry_wf(v),
            0 <= idx < v.tabs.len(),
            e.id == v.tabs[idx].id,
            entry_wf(e),
            forall|j: int| 0 <= j < v.tabs.len() && j != idx ==> #[trigger] v.tabs[j].key != e.key,
        ensures
            registry_wf(RegistryView { tabs: v.tabs.update(idx, e), active: v.active, next_id: v.next_id }),
    {
        let t = v.tabs.update(idx, e);
        assert forall|i: int, j: int|
            0 <= i < t.len() && 0 <= j < t.len() && i != j implies #[trigger] t[i].id != #[trigger] t[j].id by {
            assert(t[i].id == v.tabs[i].id);
            assert(t[j].id == v.tabs[j].id);
        }
        assert forall|i: int, j: int|
            0 <= i < t.len() && 0 <= j < t.len() && i != j implies #[trigger] t[i].key != #[trigger] t[j].key by {
            if i != idx && j != idx {
                assert(t[i] == v.tabs[i]);
                assert(t[j] == v.tabs[j]);
            } else if i == idx {
                assert(t[j] == v.tabs[j]);
            } else {
                assert(t[i] == v.tabs[i]);
            }
        }
        assert forall|i: int| 0 <= i < t.len() implies #[trigger] t[i].id < v.next_id by {
            assert(t[i].id == v.tabs[i].id);
        }
        assert forall|i: int| 0 <= i < t.len() implies entry_wf(#[trigger] t[i]) by {
            if i != idx {
                assert(t[i] == v.tabs[i]);
            }
        }
        if let Some(a) = v.active {
            let k = choose|k: int| 0 <= k < v.tabs.len() && #[trigger] v.tabs[k].id == a;
            assert(t[k].id == a);
        }
    }

    /// Open an empty start-page tab and activate it. Start pages are never
    /// persisted.
    pub fn add_welcome_tab(&mut self) -> (r: TabId)
        requires
            old(self).wf(),
            old(self).can_allocate(),
        ensures
            final(self).wf(),
            r == old(self)@.next_id,
            final(self)@.tabs == old(self)@.tabs.push(
                EntryView {
                    id: r,
                    key: spec_welcome_tab_key(r),
                    path: None,
                    kind: TabKind::Welcome,
                    persisted: false,
                },
            ),
            final(self)@.next_id == r + 1,
            final(self)@.active == Some(r),
    {
        let id = self.next_tab_id;
        let entry = TabEntry { id, key: welcome_tab_key(id), path: None, kind: TabKind::Welcome, persisted: false };
        proof {
            Self::lemma_welcome_key_fresh(self@);
            Self::lemma_push_wf(self@, entry@);
        }
        self.tabs.push(entry);
        self.next_tab_id = self.next_tab_id + 1;
        assert(entry_views(self.tabs@) =~= entry_views(old(self).tabs@).push(entry@));
        assert(self@.tabs[self@.tabs.len() - 1].id == id);
        self.activate_tab(id);
        id
    }
}


/// The active tab when it is a start page.
pub open spec fn spec_active_welcome(v: RegistryView) -> Option<TabId> {
    match v.active {
        Some(id) => if exists|i: int|
            0 <= i < v.tabs.len() && #[trigger] v.tabs[i].id == id && v.tabs[i].kind
                == TabKind::Welcome {
            Some(id)
        } else {
            None
        },
        None => None,
    }
}

/// The position of the tab with identifier `id`.
pub open spec fn index_of(tabs: Seq<EntryView>, id: TabId) -> int {
    choose|i: int| 0 <= i < tabs.len() && #[trigger] tabs[i].id == id
}

/// The tab with identifier `id`.
pub open spec fn tab_with_id(tabs: Seq<EntryView>, id: TabId) -> EntryView {
    tabs[index_of(tabs, id)]
}

/// The tabs without the one with identifier `id`.
pub open spec fn without_id(tabs: Seq<EntryView>, id: TabId) -> Seq<EntryView> {
    tabs.remove(index_of(tabs, id))
}

/// Whether the active tab carries `key`.
pub open spec fn active_has_key(v: RegistryView, key: Seq<char>) -> bool {
    exists|i: int|
        0 <= i < v.tabs.len() && #[trigger] v.tabs[i].key == key && v.active == Some(v.tabs[i].id)
}

/// The paths restored on the next start: those of persisted tabs that have
/// a path, in display order.
pub open spec fn persisted_paths(tabs: Seq<EntryView>) -> Seq<Seq<char>>
    decreases tabs.len(),
{
    if tabs.len() == 0 {
        Seq::empty()
    } else {
        let rest = persisted_paths(tabs.drop_last());
        let e = tabs.last();
        if e.persisted && e.path is Some {
            rest.push(e.path->0)
        } else {
            rest
        }
    }
}

/// The path restored as the active tab: that of the active tab when it is
/// persisted.
pub open spec fn persisted_active_path(v: RegistryView) -> Option<Seq<char>> {
    match v.active {
        Some(id) => if has_id(v.tabs, id) && tab_with_id(v.tabs, id).persisted {
            tab_with_id(v.tabs, id).path
        } else {
            None
        },
        None => None,
    }
}

impl TabRegistry {
    proof fn lemma_index_of(v: RegistryView, i: int)
        requires
            registry_wf(v),
            0 <= i < v.tabs.len(),
        ensures
            index_of(v.tabs, v.tabs[i].id) == i,
    {
        let id = v.tabs[i].id;
        let k = index_of(v.tabs, id);
        assert(0 <= k < v.tabs.len() && v.tabs[k].id == id);
        if k != i {
            assert(v.tabs[k].id != v.tabs[i].id);
        }
    }

    /// Make `id` the active tab, as a tab-bar click does. Returns whether the
    /// selection changed.
    pub fn select_tab(&mut self, id: TabId) -> (changed: bool)
        requires
            old(self).wf(),
        ensures
            final(self).wf(),
            final(self)@.tabs == old(self)@.tabs,
            final(self)@.next_id == old(self)@.next_id,
            final(self)@.active == if has_id(old(self)@.tabs, id) {
                Some(id)
            } else {
                old(self)@.active
            },
            changed == (has_id(old(self)@.tabs, id) && old(self)@.active != Some(id)),
    {
        self.activate_tab(id)
    }

    /// Open the repository at `path` (keyed by `key`): select the tab that
    /// already shows it (closing the start page that asked), else load it
    /// into the active start page, else add and activate a new tab.
    pub fn open_repo_path(&mut self, path: &str, key: &str, restored: bool) -> (r: OpenOutcome)
        requires
            old(self).wf(),
            old(self).can_allocate(),
            !has_prefix(key@, "welcome:"@),
        ensures
            final(self).wf(),
            active_has_key(final(self)@, key@),
            final(self)@.next_id >= old(self)@.next_id,
            match r {
                OpenOutcome::SelectedExisting { id, removed_welcome } => {
                    &&& has_key(old(self)@.tabs, key@)
                    &&& tab_with_id(old(self)@.tabs, id).key == key@
                    &&& removed_welcome == spec_active_welcome(old(self)@)
                    &&& final(self)@.tabs == match removed_welcome {
                        Some(w) => without_id(old(self)@.tabs, w),
                        None => old(self)@.tabs,
                    }
                    &&& final(self)@.active == Some(id)
                    &&& final(self)@.next_id == old(self)@.next_id
                },
                OpenOutcome::FilledWelcome { id } => {
                    &&& !has_key(old(self)@.tabs, key@)
                    &&& spec_active_welcome(old(self)@) == Some(id)
                    &&& final(self)@.tabs == old(self)@.tabs.update(
                        index_of(old(self)@.tabs, id),
                        EntryView {
                            id,
                            key: key@,
                            path: Some(path@),
                            kind: TabKind::Repo,
                            persisted: restored,
                        },
                    )
                    &&& final(self)@.active == Some(id)
                    &&& final(self)@.next_id == old(self)@.next_id
                },
                OpenOutcome::Added { id } => {
                    &&& !has_key(old(self)@.tabs, key@)
                    &&& spec_active_welcome(old(self)@) is None
                    &&& id == old(self)@.next_id
                    &&& final(self)@.tabs == old(self)@.tabs.push(
                        EntryView {
                            id,
                            key: key@,
                            path: Some(path@),
                            kind: TabKind::Repo,
                            persisted: restored,
                        },
                    )
                    &&& final(self)@.active == Some(id)
                    &&& final(self)@.next_id == old(self)@.next_id + 1
                },
            },
    {
        let ghost v0 = self@;
        let welcome = self.active_welcome_tab_id();
        assert(welcome == spec_active_welcome(v0));
        if let Some(existing) = self.find_by_key(key) {
            let ghost ei = choose|i: int|
                0 <= i < v0.tabs.len() && #[trigger] v0.tabs[i].key == key@ && v0.tabs[i].id == existing;
            proof {
                Self::lemma_index_of(v0, ei);
                assert(entry_wf(v0.tabs[ei]));
            }
            if let Some(w) = welcome {
                let idx = self.position_of(w).unwrap();
                proof {
                    Self::lemma_index_of(v0, idx as int);
                    assert(entry_wf(v0.tabs[idx as int]));
                    assert(v0.tabs[idx as int].kind == TabKind::Welcome) by {
                        let k = choose|k: int|
                            0 <= k < v0.tabs.len() && #[trigger] v0.tabs[k].id == w && v0.tabs[k].kind
                                == TabKind::Welcome;
                        if k != idx as int {
                            assert(v0.tabs[k].id != v0.tabs[idx as int].id);
                        }
                    }
                    let wk = v0.tabs[idx as int].key;
                    assert(has_prefix(wk, "welcome:"@)) by {
                        assert(wk.subrange(0, "welcome:"@.len() as int) =~= "welcome:"@);
                    }
                    assert(idx as int != ei);
                    assert(has_id(v0.tabs, existing));
                    Self::lemma_remove_wf(v0, idx as int, None);
                }
                let _removed = self.tabs.remove(idx);
                self.active_tab = None;
                assert(entry_views(self.tabs@) =~= v0.tabs.remove(idx as int));
                proof {
                    let t = v0.tabs.remove(idx as int);
                    let m = if ei < idx { ei } else { ei - 1 };
                    assert(t[m] == v0.tabs[ei]);
                }
            }
            self.activate_tab(existing);
            proof {
                let t = self@.tabs;
                let k = choose|k: int| 0 <= k < t.len() && #[trigger] t[k].id == existing;
                assert(registry_wf(self@));
                let m = choose|m: int| 0 <= m < t.len() && #[trigger] t[m].key == key@ && t[m].id == existing;
                assert(active_has_key(self@, key@));
            }
            return OpenOutcome::SelectedExisting { id: existing, removed_welcome: welcome };
        }
        if let Some(w) = welcome {
            let idx = self.position_of(w).unwrap();
            let entry = TabEntry {
                id: w,
                key: owned(key),
                path: Some(owned(path)),
                kind: TabKind::Repo,
                persisted: restored,
            };
            proof {
                Self::lemma_index_of(v0, idx as int);
                Self::lemma_replace_wf(v0, idx as int, entry@);
            }
            self.tabs.remove(idx);
            self.tabs.insert(idx, entry);
            assert(entry_views(self.tabs@) =~= v0.tabs.update(idx as int, entry@));
            proof {
                assert(self@.tabs[idx as int].key == key@);
                assert(self@.tabs[idx as int].id == w);
                assert(active_has_key(self@, key@));
            }
            return OpenOutcome::FilledWelcome { id: w };
        }
        let id = self.next_tab_id;
        self.add_repo_tab(path, key, restored, true);
        proof {
            let last = self@.tabs.len() - 1;
            assert(self@.tabs[last].key == key@);
            assert(active_has_key(self@, key@));
        }
        OpenOutcome::Added { id }
    }

    /// Close tab `id` at once and move the selection to
    /// [`fallback_after_close`]. Returns whether a tab was closed.
    pub fn close_tab_now(&mut self, id: TabId) -> (closed: bool)
        requires
            old(self).wf(),
        ensures
            final(self).wf(),
            closed == has_id(old(self)@.tabs, id),
            !has_id(final(self)@.tabs, id),
            final(self)@.next_id == old(self)@.next_id,
            closed ==> final(self)@.tabs == without_id(old(self)@.tabs, id)
                && final(self)@.active == spec_fallback_after_close(
                ids(old(self)@.tabs),
                old(self)@.active,
                id,
            ),
            !closed ==> final(self)@ == old(self)@,
    {
        let ghost v0 = self@;
        let idx = match self.position_of(id) {
            Some(i) => i,
            None => return false,
        };
        let mut order: Vec<TabId> = Vec::new();
        let mut i: usize = 0;
        while i < self.tabs.len()
            invariant
                i <= self.tabs@.len(),
                self@ == v0,
                order@ == ids(v0.tabs).take(i as int),
            decreases self.tabs@.len() - i,
        {
            order.push(self.tabs[i].id);
            proof {
                assert(v0.tabs[i as int] == self.tabs@[i as int]@);
                assert(ids(v0.tabs).take(i + 1) =~= ids(v0.tabs).take(i as int).push(
                    self.tabs@[i as int].id,
                ));
            }
            i += 1;
        }
        assert(order@ =~= ids(v0.tabs));
        proof {
            assert forall|a: int, b: int|
                0 <= a < order@.len() && 0 <= b < order@.len() && a != b implies order@[a]
                != order@[b] by {
                assert(order@[a] == v0.tabs[a].id);
                assert(order@[b] == v0.tabs[b].id);
            }
        }
        let fallback = fallback_after_close(order.as_slice(), self.active_tab, id);
        proof {
            Self::lemma_index_of(v0, idx as int);
            match fallback {
                Some(f) => {
                    if v0.active == Some(id) {
                        let k = choose|k: int| 0 <= k < order@.len() && order@[k] == id;
                        assert(v0.tabs[k].id == id);
                        if k != idx {
                            assert(v0.tabs[k].id != v0.tabs[idx as int].id);
                        }
                        if k + 1 < order@.len() {
                            assert(f == v0.tabs[k + 1].id);
                            assert(v0.tabs[k + 1].id != v0.tabs[k].id);
                            assert(has_id(v0.tabs, f));
                        } else {
                            assert(f == v0.tabs[k - 1].id);
                            assert(v0.tabs[k - 1].id != v0.tabs[k].id);
                            assert(has_id(v0.tabs, f));
                        }
                    }
                },
                None => {},
            }
            Self::lemma_remove_wf(v0, idx as int, fallback);
        }
        self.tabs.remove(idx);
        self.active_tab = fallback;
        assert(entry_views(self.tabs@) =~= v0.tabs.remove(idx as int));
        proof {
            let t = self@.tabs;
            assert forall|j: int| 0 <= j < t.len() implies #[trigger] t[j].id != id by {
                let a = if j < idx { j } else { j + 1 };
                assert(t[j] == v0.tabs[a]);
                assert(a != idx as int);
                assert(v0.tabs[a].id != v0.tabs[idx as int].id);
            }
        }
        true
    }

    /// Mark tab `id` for persistence once its repository opened.
    pub fn mark_opened(&mut self, id: TabId)
        requires
            old(self).wf(),
        ensures
            final(self).wf(),
            final(self)@.active == old(self)@.active,
            final(self)@.next_id == old(self)@.next_id,
            final(self)@.tabs.len() == old(self)@.tabs.len(),
            forall|i: int|
                0 <= i < final(self)@.tabs.len() ==> #[trigger] final(self)@.tabs[i] == if old(
                    self,
                )@.tabs[i].id == id {
                    EntryView { persisted: true, ..old(self)@.tabs[i] }
                } else {
                    old(self)@.tabs[i]
                },
    {
        let ghost v0 = self@;
        if let Some(idx) = self.position_of(id) {
            let old_entry = self.tabs.remove(idx);
            let entry = TabEntry { persisted: true, ..old_entry };
            proof {
                assert(entry@ == EntryView { persisted: true, ..v0.tabs[idx as int] });
                Self::lemma_replace_wf(v0, idx as int, entry@);
            }
            self.tabs.insert(idx, entry);
            assert(entry_views(self.tabs@) =~= v0.tabs.update(idx as int, entry@));
            proof {
                assert forall|i: int| 0 <= i < self@.tabs.len() && i != idx implies v0.tabs[i].id != id by {
                    assert(v0.tabs[i].id != v0.tabs[idx as int].id);
                }
            }
        }
    }

    /// The paths of the tabs to restore on the next start, and the path of
    /// the tab to reactivate.
    pub fn persisted_config(&self) -> (r: (Vec<String>, Option<String>))
        requires
            self.wf(),
        ensures
            views(r.0@) == persisted_paths(self@.tabs),
            opt_view(r.1) == persisted_active_path(self@),
    {
        let mut paths: Vec<String> = Vec::new();
        let mut i: usize = 0;
        while i < self.tabs.len()
            invariant
                i <= self.tabs@.len(),
                views(paths@) == persisted_paths(self@.tabs.take(i as int)),
            decreases self.tabs@.len() - i,
        {
            let e = &self.tabs[i];
            proof {
                assert(self@.tabs.take(i + 1).drop_last() =~= self@.tabs.take(i as int));
                assert(self@.tabs.take(i + 1).last() == e@);
            }
            if e.persisted {
                if let Some(p) = &e.path {
                    paths.push(p.clone());
                    assert(views(paths@) =~= persisted_paths(self@.tabs.take(i as int)).push(p@));
                }
            }
            i += 1;
        }
        assert(self@.tabs.take(self.tabs@.len() as int) =~= self@.tabs);
        let active_path = match self.active_tab {
            Some(a) => match self.position_of(a) {
                Some(k) => {
                    proof {
                        Self::lemma_index_of(self@, k as int);
                    }
                    if self.tabs[k].persisted {
                        match &self.tabs[k].path {
                            Some(p) => Some(p.clone()),
                            None => None,
                        }
                    } else {
                        None
                    }
                },
                None => None,
            },
            None => None,
        };
        (paths, active_path)
    }

    /// Choose the tab to activate after restoring: the one whose key is
    /// `desired_key`, else the first tab, else none.
    pub fn restore_active_tab(&mut self, desired_key: Option<&str>)
        requires
            old(self).wf(),
        ensures
            final(self).wf(),
            final(self)@.tabs == old(self)@.tabs,
            final(self)@.next_id == old(self)@.next_id,
            final(self)@.active == match desired_key {
                Some(k) if has_key(old(self)@.tabs, k@) => Some(
                    old(self)@.tabs[choose|i: int|
                        0 <= i < old(self)@.tabs.len() && #[trigger] old(self)@.tabs[i].key
                            == k@].id,
                ),
                _ => if old(self)@.tabs.len() > 0 {
                    Some(old(self)@.tabs[0].id)
                } else {
                    None
                },
            },
    {
        let found = match desired_key {
            Some(k) => self.find_by_key(k),
            None => None,
        };
        proof {
            if let Some(k) = desired_key {
                if let Some(f) = found {
                    let c = choose|i: int|
                        0 <= i < self@.tabs.len() && #[trigger] self@.tabs[i].key == k@;
                    let w = choose|i: int|
                        0 <= i < self@.tabs.len() && #[trigger] self@.tabs[i].key == k@ && self@.tabs[i].id
                            == f;
                    if c != w {
                        assert(self@.tabs[c].key != self@.tabs[w].key);
                    }
                    assert(has_id(self@.tabs, f));
                }
            }
        }
        self.active_tab = match found {
            Some(id) => Some(id),
            None => if self.tabs.len() > 0 {
                assert(self@.tabs[0] == self.tabs@[0]@);
                assert(has_id(self@.tabs, self.tabs@[0].id));
                Some(self.tabs[0].id)
            } else {
                None
            },
        };
    }
}

} // verus!
