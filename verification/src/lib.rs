//! Client-side endpoint bookkeeping and shell display rules of a terminal
//! workspace manager, verified with Verus.
use vstd::prelude::*;

pub mod attach_scroll;
pub mod clock;
pub mod commands;
pub mod composition;
pub mod config_edit;
pub mod confirm_close;
pub mod copy_mode;
pub mod dialogs;
pub mod endpoint;
pub mod endpoint_results;
pub mod geometry;
pub mod global_menu;
pub mod health;
pub mod input;
pub mod keyboard_mode;
pub mod keyed;
pub mod layout;
pub mod lexicographic;
pub mod mouse_capture;
pub mod mouse_release;
pub mod navigator;
pub mod navigator_ops;
pub mod navigator_overlay;
pub mod negotiation;
pub mod overlay;
pub mod overlay_keys;
pub mod receipt;
pub mod registry;
pub mod rename_flow;
pub mod rename_keys;
pub mod render_targets;
pub mod response;
pub mod shell_actions;
pub mod shell_bindings;
pub mod shell_focus;
pub mod sidebar;
pub mod sidebar_layout;
pub mod snapshot;
pub mod status;
pub mod tab_bar;
pub mod tab_drop;
pub mod text;
pub mod topology;
pub mod width;
pub mod workspace_drop;
pub mod workspace_move;
pub mod workspace_tokens;
pub mod worktree;

verus! {

} // verus!
