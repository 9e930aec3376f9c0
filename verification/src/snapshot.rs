//! The session snapshot an endpoint sends to the client shell: its workspaces,
//! tabs, panes and agents, and which of them has focus.
use vstd::prelude::*;

use crate::status::AgentStatus;

verus! {

/// The repository a workspace belongs to.
#[derive(Clone, Debug)]
pub struct ClientShellWorktree {
    /// The key all checkouts of one repository share.
    pub key: String,
    pub label: String,
    /// Whether this checkout is a linked worktree rather than the main one.
    pub is_linked_worktree: bool,
}

/// One workspace of the session.
#[derive(Clone, Debug)]
pub struct ClientShellWorkspace {
    pub workspace_id: String,
    pub number: usize,
    pub label: String,
    /// Whether the user named the workspace.
    pub custom_label: bool,
    pub branch: Option<String>,
    pub git_ahead_behind: Option<(usize, usize)>,
    /// Metadata tokens reported for the workspace, by name.
    pub tokens: Vec<(String, String)>,
    pub worktree: Option<ClientShellWorktree>,
    pub focused: bool,
    pub agent_status: AgentStatus,
}

/// One tab of a workspace.
#[derive(Clone, Debug)]
pub struct ClientShellTab {
    pub tab_id: String,
    pub workspace_id: String,
    pub number: usize,
    pub label: String,
    pub custom_label: bool,
    pub zoomed: bool,
    pub focused: bool,
    pub agent_status: AgentStatus,
}

/// One pane of a tab.
#[derive(Clone, Debug)]
pub struct ClientShellPane {
    pub pane_id: String,
    pub workspace_id: String,
    pub tab_id: String,
    pub label: Option<String>,
    pub cwd: Option<String>,
    /// The working directory of the process in the foreground, when known.
    pub foreground_cwd: Option<String>,
    pub focused: bool,
    pub right_click_passthrough: bool,
}

/// An agent detected in a pane.
#[derive(Clone, Debug)]
pub struct ClientShellAgent {
    pub pane_id: String,
    pub workspace_id: String,
    pub tab_id: String,
    pub name: Option<String>,
    pub display_agent: Option<String>,
    pub agent: Option<String>,
    pub title: Option<String>,
    pub agent_status: AgentStatus,
    pub focused: bool,
}

/// What the shell draws: the whole session at one revision.
#[derive(Clone, Debug)]
pub struct ClientShellSnapshot {
    /// Identifies the endpoint process; a new one starts a new session.
    pub boot_id: String,
    pub revision: u64,
    pub focused_workspace_id: Option<String>,
    pub focused_tab_id: Option<String>,
    pub focused_pane_id: Option<String>,
    pub workspaces: Vec<ClientShellWorkspace>,
    pub tabs: Vec<ClientShellTab>,
    pub panes: Vec<ClientShellPane>,
    pub agents: Vec<ClientShellAgent>,
}

/// The characters of an optional string.
pub open spec fn opt_view(s: Option<String>) -> Option<Seq<char>> {
    match s {
        Some(v) => Some(v@),
        None => None,
    }
}

} // verus!
