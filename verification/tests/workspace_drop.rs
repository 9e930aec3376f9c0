use herdr::geometry::Rect;
use herdr::snapshot::{ClientShellSnapshot, ClientShellWorkspace, ClientShellWorktree};
use herdr::status::AgentStatus;
use herdr::workspace_drop::{workspace_drop_target_at, WorkspaceHit};

fn workspace(id: &str, worktree: Option<(&str, bool)>) -> ClientShellWorkspace {
    ClientShellWorkspace {
        workspace_id: id.into(),
        number: 1,
        label: id.into(),
        custom_label: false,
        branch: None,
        git_ahead_behind: None,
        tokens: Vec::new(),
        worktree: worktree.map(|(key, linked)| ClientShellWorktree {
            key: key.into(),
            label: key.into(),
            is_linked_worktree: linked,
        }),
        focused: false,
        agent_status: AgentStatus::Idle,
    }
}

fn snapshot() -> ClientShellSnapshot {
    ClientShellSnapshot {
        boot_id: "boot".into(),
        revision: 1,
        focused_workspace_id: None,
        focused_tab_id: None,
        focused_pane_id: None,
        workspaces: vec![
            workspace("a", None),
            workspace("r", Some(("repo", false))),
            workspace("r2", Some(("repo", true))),
            workspace("c", None),
        ],
        tabs: Vec::new(),
        panes: Vec::new(),
        agents: Vec::new(),
    }
}

fn hit(id: &str, y: u16, indented: bool) -> WorkspaceHit {
    WorkspaceHit { rect: Rect::new(0, y, 20, 1), workspace_id: id.into(), indented }
}

fn all_rows() -> Vec<WorkspaceHit> {
    vec![hit("a", 2, false), hit("r", 3, false), hit("r2", 4, true), hit("c", 5, false)]
}

const BODY: Rect = Rect { x: 0, y: 2, width: 20, height: 4 };
const NEW_WORKSPACE: Rect = Rect { x: 0, y: 7, width: 20, height: 1 };

fn target(hits: &[WorkspaceHit], y: u16) -> Option<(Option<String>, u16)> {
    workspace_drop_target_at(&snapshot(), &[], hits, BODY, NEW_WORKSPACE, (3, y))
}

#[test]
fn drop_lands_in_the_nearest_gap() {
    let rows = all_rows();
    assert_eq!(target(&rows, 1), Some((Some("a".to_string()), 1)));
    assert_eq!(target(&rows, 3), Some((Some("r".to_string()), 2)));
    assert_eq!(target(&rows, 4), Some((Some("c".to_string()), 4)));
    assert_eq!(target(&rows, 6), Some((None, 6)));
}

#[test]
fn drop_outside_the_list_has_no_target() {
    let rows = all_rows();
    assert_eq!(target(&rows, 0), None);
    assert_eq!(target(&rows, 7), None);
    assert_eq!(target(&rows, 9), None);
    let flat = Rect { x: 0, y: 2, width: 20, height: 0 };
    assert_eq!(workspace_drop_target_at(&snapshot(), &[], &rows, flat, NEW_WORKSPACE, (3, 3)), None);
    assert_eq!(target(&[], 3), None);
    assert_eq!(target(&[hit("gone", 2, false)], 3), None);
}

#[test]
fn no_gap_below_a_row_followed_by_its_worktrees() {
    let rows = vec![hit("a", 2, false), hit("r", 3, false)];
    assert_eq!(target(&rows, 5), Some((Some("r".to_string()), 2)));
}

#[test]
fn gap_below_the_last_drawn_row_is_before_the_next_workspace() {
    let rows = vec![hit("a", 2, false), hit("r", 3, false), hit("r2", 4, true)];
    assert_eq!(target(&rows, 5), Some((Some("c".to_string()), 5)));
}
