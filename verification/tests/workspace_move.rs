use herdr::snapshot::{ClientShellSnapshot, ClientShellWorkspace, ClientShellWorktree};
use herdr::status::AgentStatus;
use herdr::workspace_move::{workspace_move_method, WorkspaceMoveMethod};

fn workspace(id: &str, worktree: Option<(&str, bool)>) -> ClientShellWorkspace {
    ClientShellWorkspace {
        workspace_id: id.into(),
        number: 1,
        label: id.into(),
        custom_label: false,
        branch: None,
        git_ahead_behind: None,
        tokens: Vec::new(),
        worktree: worktree.map(|(key, linked)| ClientShellWorktree {
            key: key.into(),
            label: key.into(),
            is_linked_worktree: linked,
        }),
        focused: false,
        agent_status: AgentStatus::Idle,
    }
}

fn snapshot(workspaces: Vec<ClientShellWorkspace>) -> ClientShellSnapshot {
    ClientShellSnapshot {
        boot_id: "boot".into(),
        revision: 1,
        focused_workspace_id: None,
        focused_tab_id: None,
        focused_pane_id: None,
        workspaces,
        tabs: Vec::new(),
        panes: Vec::new(),
        agents: Vec::new(),
    }
}

/// a, repo main r, its linked worktree r2, c
fn sample() -> ClientShellSnapshot {
    snapshot(vec![
        workspace("a", None),
        workspace("r", Some(("repo", false))),
        workspace("r2", Some(("repo", true))),
        workspace("c", None),
    ])
}

fn single(id: &str, insert_index: usize) -> Option<WorkspaceMoveMethod> {
    Some(WorkspaceMoveMethod::WorkspaceMove { workspace_id: id.into(), insert_index })
}

fn describe(method: Option<WorkspaceMoveMethod>) -> Option<(Vec<String>, Option<String>, Option<usize>)> {
    method.map(|m| match m {
        WorkspaceMoveMethod::WorkspaceMoveBlock { workspace_ids, before_workspace_id } => {
            (workspace_ids, before_workspace_id, None)
        }
        WorkspaceMoveMethod::WorkspaceMove { workspace_id, insert_index } => {
            (vec![workspace_id], None, Some(insert_index))
        }
    })
}

#[test]
fn plain_workspace_moves_to_the_index_of_its_target() {
    let snap = sample();
    assert_eq!(describe(workspace_move_method(&snap, "c", Some("a"))), describe(single("c", 0)));
    assert_eq!(describe(workspace_move_method(&snap, "a", None)), describe(single("a", 4)));
    assert_eq!(describe(workspace_move_method(&snap, "a", Some("c"))), describe(single("a", 3)));
}

#[test]
fn repository_workspace_moves_with_its_linked_worktrees() {
    let snap = sample();
    assert_eq!(
        describe(workspace_move_method(&snap, "r", Some("a"))),
        Some((vec!["r".to_string(), "r2".to_string()], Some("a".to_string()), None))
    );
    assert_eq!(
        describe(workspace_move_method(&snap, "r", None)),
        Some((vec!["r".to_string(), "r2".to_string()], None, None))
    );
}

#[test]
fn drops_that_do_not_move_anything_ask_for_nothing() {
    let snap = sample();
    // Before itself.
    assert!(workspace_move_method(&snap, "a", Some("a")).is_none());
    // Before the next movable workspace: it stays where it is.
    assert!(workspace_move_method(&snap, "a", Some("r")).is_none());
    assert!(workspace_move_method(&snap, "r", Some("c")).is_none());
    // The last one dropped at the end.
    assert!(workspace_move_method(&snap, "c", None).is_none());
}

#[test]
fn linked_worktrees_unknown_sources_and_targets_are_refused() {
    let snap = sample();
    assert!(workspace_move_method(&snap, "r2", Some("a")).is_none());
    assert!(workspace_move_method(&snap, "zz", Some("a")).is_none());
    assert!(workspace_move_method(&snap, "a", Some("zz")).is_none());
    // A linked worktree is no drop target.
    assert!(workspace_move_method(&snap, "a", Some("r2")).is_none());
}
