use herdr::geometry::Rect;
use herdr::shell_focus::{cycle_pane, move_navigate_workspace, pane_split_target_is_current};
use herdr::snapshot::{ClientShellSnapshot, ClientShellWorkspace, ClientShellWorktree};
use herdr::status::AgentStatus;
use herdr::topology::{pane_surface_topology_signature, PaneSurfaceFrame, PaneSurfacePane};

fn workspace(id: &str, worktree: Option<(&str, bool)>) -> ClientShellWorkspace {
    ClientShellWorkspace {
        workspace_id: id.into(),
        number: 1,
        label: id.into(),
        custom_label: false,
        branch: None,
        git_ahead_behind: None,
        tokens: Vec::new(),
        worktree: worktree.map(|(key, linked)| ClientShellWorktree {
            key: key.into(),
            label: key.into(),
            is_linked_worktree: linked,
        }),
        focused: false,
        agent_status: AgentStatus::Idle,
    }
}

fn snapshot(workspaces: Vec<ClientShellWorkspace>) -> ClientShellSnapshot {
    ClientShellSnapshot {
        boot_id: "boot".into(),
        revision: 3,
        focused_workspace_id: None,
        focused_tab_id: Some("t1".into()),
        focused_pane_id: None,
        workspaces,
        tabs: Vec::new(),
        panes: Vec::new(),
        agents: Vec::new(),
    }
}

fn sidebar() -> ClientShellSnapshot {
    snapshot(vec![
        workspace("a", None),
        workspace("r", Some(("repo", false))),
        workspace("r2", Some(("repo", true))),
        workspace("c", None),
    ])
}

fn pane(id: &str) -> PaneSurfacePane {
    PaneSurfacePane {
        pane_id: id.into(),
        rect: Rect::new(0, 0, 10, 10),
        inner_rect: Rect::new(1, 1, 8, 8),
        scrollbar_rect: None,
        focused: false,
        mouse_reporting: false,
        sgr_pixel_mouse: false,
        pixel_width: 0,
        pixel_height: 0,
    }
}

fn surface(ids: &[&str]) -> PaneSurfaceFrame {
    PaneSurfaceFrame { projection_revision: 3, panes: ids.iter().map(|id| pane(id)).collect(), splits: Vec::new() }
}

fn moved(current: Option<&str>, delta: isize) -> Option<String> {
    let mut id = current.map(str::to_owned);
    move_navigate_workspace(&sidebar(), &[], &mut id, delta);
    id
}

#[test]
fn navigate_mode_steps_through_the_sidebar_rows_and_wraps() {
    assert_eq!(moved(None, 1), Some("r".to_string()));
    assert_eq!(moved(Some("r"), 1), Some("r2".to_string()));
    assert_eq!(moved(Some("c"), 1), Some("a".to_string()));
    assert_eq!(moved(Some("a"), -1), Some("c".to_string()));
    assert_eq!(moved(Some("a"), -5), Some("c".to_string()));
    assert_eq!(moved(Some("gone"), 2), Some("r2".to_string()));
}

#[test]
fn navigate_mode_without_workspaces_keeps_its_target() {
    let mut id = Some("x".to_string());
    move_navigate_workspace(&snapshot(Vec::new()), &[], &mut id, 1);
    assert_eq!(id, Some("x".to_string()));
}

#[test]
fn cycling_panes_moves_to_the_neighbour_and_wraps() {
    let panes = surface(&["p1", "p2", "p3"]);
    let mut s = sidebar();
    s.focused_pane_id = Some("p2".into());
    assert_eq!(cycle_pane(&s, &panes, false), Some("p3".to_string()));
    assert_eq!(cycle_pane(&s, &panes, true), Some("p1".to_string()));
    s.focused_pane_id = Some("p3".into());
    assert_eq!(cycle_pane(&s, &panes, false), Some("p1".to_string()));
    s.focused_pane_id = Some("zz".into());
    assert_eq!(cycle_pane(&s, &panes, false), Some("p2".to_string()));
    assert_eq!(cycle_pane(&s, &panes, true), Some("p3".to_string()));
    assert_eq!(cycle_pane(&s, &surface(&[]), false), None);
}

#[test]
fn split_target_is_current_only_for_the_same_revision_tab_and_topology() {
    let s = sidebar();
    let panes = surface(&["p1", "p2"]);
    let signature = pane_surface_topology_signature(&panes);
    assert_eq!(pane_split_target_is_current(&s, &panes, signature, "t1"), Some(true));
    assert_eq!(pane_split_target_is_current(&s, &panes, signature, "t2"), Some(false));
    assert_eq!(pane_split_target_is_current(&s, &panes, signature ^ 1, "t1"), Some(false));
    let mut stale = surface(&["p1", "p2"]);
    stale.projection_revision = 2;
    assert_eq!(pane_split_target_is_current(&s, &stale, signature, "t1"), None);
}
