//! Verified workspace logic of a review-first desktop Git client: outcome
//! classification for Agent-driven Git operations, branch-operation argument
//! building and validation, shortcut bookkeeping, tab management, close
//! guards, Agent session state, and extension event routing.
pub mod text;
pub mod keyed;
pub mod agent_commit;
pub mod agent_merge;
pub mod agent_rebase;
pub mod agent_extension;
pub mod branch_ops;
pub mod branch_dialog;
pub mod focus_refresh;
pub mod app_menu_router;
pub mod push_upstream;
pub mod tabs;
pub mod close_guard;
pub mod agent_session;
pub mod keymap;
pub mod extension_events;
pub mod extensions_panel;
pub mod extension_actions;
pub mod repo_events;
pub mod agent_tab_sessions;
pub mod preferences;
pub mod repo_tab_state;
