//! Window-activation refresh policy for the active repository tab.
//!
//! Instants are milliseconds on the process's monotonic clock, and durations
//! are milliseconds; the application converts its clock readings.
use vstd::prelude::*;

verus! {

/// Minimum interval between two focus-triggered refreshes, in milliseconds.
/// Also suppresses the activation delivered right after window creation,
/// while the initial repository load is still in flight.
pub const FOCUS_REFRESH_COOLDOWN_MS: u64 = 2000;

/// Time elapsed from `earlier` to `later`, or zero when `later` is earlier.
pub open spec fn saturating_since(later: u64, earlier: u64) -> u64 {
    if later >= earlier {
        (later - earlier) as u64
    } else {
        0
    }
}

/// Whether a window activation at `now` should refresh the repository.
pub open spec fn spec_should_refresh_on_focus(last_refresh: Option<u64>, now: u64, cooldown: u64) -> bool {
    match last_refresh {
        None => true,
        Some(last) => saturating_since(now, last) >= cooldown,
    }
}

/// Whether a window activation at `now` should refresh the repository: the
/// first activation always does, later ones once the cooldown has elapsed
/// since the last recorded refresh.
pub fn should_refresh_on_focus(last_refresh: Option<u64>, now: u64, cooldown: u64) -> (r: bool)
    ensures
        r == spec_should_refresh_on_focus(last_refresh, now, cooldown),
{
    match last_refresh {
        None => true,
        Some(last) => {
            let elapsed = if now >= last {
                now - last
            } else {
                0
            };
            elapsed >= cooldown
        },
    }
}

/// What a window activation asks of the active repository tab.
#[derive(Clone, Copy, Debug, PartialEq, Eq)]
pub enum FocusDecision {
    /// The observer fired for a deactivation.
    Inactive,
    /// Focus refresh is disabled in the settings.
    Disabled,
    /// The cooldown since the last recorded refresh is still running.
    CoolingDown,
    /// No repository tab is active.
    NoTab,
    /// Ask the active tab to refresh; record `now` if it accepts.
    Refresh,
}

/// The decision for a window activation event.
pub open spec fn spec_focus_decision(
    window_active: bool,
    auto_refresh: bool,
    last_refresh: Option<u64>,
    now: u64,
    has_repository_tab: bool,
) -> FocusDecision {
    if !window_active {
        FocusDecision::Inactive
    } else if !auto_refresh {
        FocusDecision::Disabled
    } else if !spec_should_refresh_on_focus(last_refresh, now, FOCUS_REFRESH_COOLDOWN_MS) {
        FocusDecision::CoolingDown
    } else if !has_repository_tab {
        FocusDecision::NoTab
    } else {
        FocusDecision::Refresh
    }
}

/// Decide what a window activation does.
pub fn focus_decision(
    window_active: bool,
    auto_refresh: bool,
    last_refresh: Option<u64>,
    now: u64,
    has_repository_tab: bool,
) -> (r: FocusDecision)
    ensures
        r == spec_focus_decision(window_active, auto_refresh, last_refresh, now, has_repository_tab),
{
    if !window_active {
        FocusDecision::Inactive
    } else if !auto_refresh {
        FocusDecision::Disabled
    } else if !should_refresh_on_focus(last_refresh, now, FOCUS_REFRESH_COOLDOWN_MS) {
        FocusDecision::CoolingDown
    } else if !has_repository_tab {
        FocusDecision::NoTab
    } else {
        FocusDecision::Refresh
    }
}

/// The last-refresh record after an activation: `now` is recorded only when
/// a refresh was asked for and the tab accepted it.
pub fn record_focus_refresh(last_refresh: Option<u64>, decision: FocusDecision, accepted: bool, now: u64) -> (r: Option<u64>)
    ensures
        r == if decision == FocusDecision::Refresh && accepted {
            Some(now)
        } else {
            last_refresh
        },
{
    match decision {
        FocusDecision::Refresh => if accepted {
            Some(now)
        } else {
            last_refresh
        },
        _ => last_refresh,
    }
}

/// Two refreshes that this policy records lie at least one cooldown apart:
/// after a refresh recorded at `t1`, an activation at `t2` is turned into a
/// refresh only if `t2 - t1` is at least the cooldown.
pub proof fn law_focus_refreshes_are_spaced(t1: u64, t2: u64, auto_refresh: bool, has_tab: bool)
    requires
        t1 <= t2,
        spec_focus_decision(true, auto_refresh, Some(t1), t2, has_tab) == FocusDecision::Refresh,
    ensures
        t2 - t1 >= FOCUS_REFRESH_COOLDOWN_MS,
{
}

} // verus!
