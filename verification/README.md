# augur_workspace

The workspace logic of Augur Git, a review-first desktop Git client, as a
Verus library: the workspace's decisions that do not depend on the UI
toolkit, on floating point or on modules absent from this project are
executable functions whose `requires`/`ensures` contracts Verus proves.

## Layout

- `src/` — the verified library.
  - `text.rs`, `keyed.rs` — string helpers stated over character sequences
    (trimming, first lines, decimal numbers, integer parsing, code-point
    order) and a small map with an exact `Map` view.
  - `tabs.rs`, `close_guard.rs`, `focus_refresh.rs`, `app_menu_router.rs` —
    the tab registry with its well-formedness invariant, close confirmations,
    focus-driven refreshes and menu routing.
  - `repo_tab_state.rs`, `repo_events.rs`, `branch_ops.rs`,
    `branch_dialog.rs`, `push_upstream.rs` — a repository tab's busy state,
    Git command results, branch dialogs and the arguments of Git commands.
  - `agent_commit.rs`, `agent_merge.rs`, `agent_rebase.rs`,
    `agent_session.rs`, `agent_tab_sessions.rs`, `agent_extension.rs` —
    Agent sessions: how their outcomes are classified from repository
    probes, their lifecycle, and the sessions extensions ask for.
  - `extension_events.rs`, `extensions_panel.rs`, `extension_actions.rs` —
    repository events for extensions, the extensions page and its requests.
  - `keymap.rs`, `preferences.rs` — shortcuts, fonts, Agent profiles and
    launch overrides.
- `tests/` — tests run against the compiled library.
- `app/` — the edge: clocks, file system paths, the home directory, logging,
  and the floating-point font size comparison.

Laws that relate several functions are public proof functions named
`law_*`.
