//! Workspace-level close guards. Closing the application, its window, or a
//! repository tab while Agent sessions or extension runs are active first
//! asks for an explicit confirmation that lists them.
use vstd::prelude::*;
use crate::tabs::TabId;

verus! {

/// A close that waits for the user's confirmation.
#[derive(Clone, Copy, Debug, PartialEq, Eq, Structural)]
pub enum PendingWorkspaceClose {
    Application,
    Tab(TabId),
}

/// What a close request does right now.
#[derive(Clone, Copy, Debug, PartialEq, Eq, Structural)]
pub enum CloseDecision {
    /// Another confirmation is already showing, or the tab is unknown.
    Ignored,
    /// Nothing is active: close at once.
    CloseNow,
    /// Operations are active: the confirmation is now showing.
    Deferred,
}

/// The close confirmation state of the workspace.
pub struct CloseGuard {
    pub pending: Option<PendingWorkspaceClose>,
}

impl CloseGuard {
    pub fn new() -> (r: CloseGuard)
        ensures
            r.pending is None,
    {
        CloseGuard { pending: None }
    }

    /// Request application quit (or a native window close) while
    /// `active_operations` Agent sessions and extension runs are active.
    pub fn request_application_close(&mut self, active_operations: usize) -> (r: CloseDecision)
        ensures
            old(self).pending is Some ==> r == CloseDecision::Ignored && final(self).pending
                == old(self).pending,
            old(self).pending is None && active_operations == 0 ==> r == CloseDecision::CloseNow
                && final(self).pending is None,
            old(self).pending is None && active_operations > 0 ==> r == CloseDecision::Deferred
                && final(self).pending == Some(PendingWorkspaceClose::Application),
    {
        if self.pending.is_some() {
            return CloseDecision::Ignored;
        }
        if active_operations == 0 {
            CloseDecision::CloseNow
        } else {
            self.pending = Some(PendingWorkspaceClose::Application);
            CloseDecision::Deferred
        }
    }

    /// Request closing tab `id`. `tab_exists` tells whether the tab is open;
    /// `agent_active` whether an Agent session runs for its repository;
    /// `extension_active` whether any extension run is active.
    pub fn request_tab_close(&mut self, id: TabId, tab_exists: bool, agent_active: bool, extension_active: bool) -> (r: CloseDecision)
        ensures
            old(self).pending is Some || !tab_exists ==> r == CloseDecision::Ignored
                && final(self).pending == old(self).pending,
            old(self).pending is None && tab_exists && !agent_active && !extension_active ==> r
                == CloseDecision::CloseNow && final(self).pending is None,
            old(self).pending is None && tab_exists && (agent_active || extension_active) ==> r
                == CloseDecision::Deferred && final(self).pending == Some(PendingWorkspaceClose::Tab(id)),
    {
        if self.pending.is_some() || !tab_exists {
            return CloseDecision::Ignored;
        }
        if agent_active || extension_active {
            self.pending = Some(PendingWorkspaceClose::Tab(id));
            CloseDecision::Deferred
        } else {
            CloseDecision::CloseNow
        }
    }

    /// Dismiss the confirmation. Returns whether one was showing.
    pub fn cancel_pending_close(&mut self) -> (r: bool)
        ensures
            r == (old(self).pending is Some),
            final(self).pending is None,
    {
        let was = self.pending.is_some();
        self.pending = None;
        was
    }

    /// Confirm the pending close: returns it (the caller then stops the
    /// listed operations and closes) and clears the confirmation.
    pub fn confirm_pending_close(&mut self) -> (r: Option<PendingWorkspaceClose>)
        ensures
            r == old(self).pending,
            final(self).pending is None,
    {
        let pending = self.pending;
        self.pending = None;
        pending
    }
}

/// Nothing closes at once while operations are active: a request then either
/// shows the confirmation or is ignored, and only a confirmation closes.
pub proof fn law_active_operations_need_confirmation(pending: Option<PendingWorkspaceClose>, count: usize, decision: CloseDecision)
    requires
        count > 0,
        pending is Some ==> decision == CloseDecision::Ignored,
        pending is None ==> decision == CloseDecision::Deferred,
    ensures
        decision != CloseDecision::CloseNow,
{
}

} // verus!
