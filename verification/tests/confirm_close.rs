use herdr::confirm_close::open_confirm_close_overlay;
use herdr::snapshot::{ClientShellPane, ClientShellSnapshot, ClientShellWorkspace, ClientShellWorktree};
use herdr::status::AgentStatus;

fn workspace(id: &str, label: &str, worktree: Option<(&str, bool)>) -> ClientShellWorkspace {
    ClientShellWorkspace {
        workspace_id: id.into(),
        number: 1,
        label: label.into(),
        custom_label: false,
        branch: None,
        git_ahead_behind: None,
        tokens: Vec::new(),
        worktree: worktree.map(|(key, linked)| ClientShellWorktree {
            key: key.into(),
            label: key.into(),
            is_linked_worktree: linked,
        }),
        focused: false,
        agent_status: AgentStatus::Idle,
    }
}

fn pane(id: &str, ws: &str) -> ClientShellPane {
    ClientShellPane {
        pane_id: id.into(),
        workspace_id: ws.into(),
        tab_id: "t".into(),
        label: None,
        cwd: None,
        foreground_cwd: None,
        focused: false,
        right_click_passthrough: false,
    }
}

fn snapshot() -> ClientShellSnapshot {
    ClientShellSnapshot {
        boot_id: "boot".into(),
        revision: 1,
        focused_workspace_id: None,
        focused_tab_id: None,
        focused_pane_id: None,
        workspaces: vec![
            workspace("a", "notes", None),
            workspace("r", "api", Some(("repo", false))),
            workspace("r2", "api-fix", Some(("repo", true))),
            workspace("e", "empty", None),
        ],
        tabs: Vec::new(),
        panes: vec![pane("p1", "a"), pane("p2", "r"), pane("p3", "r"), pane("p4", "r2")],
        agents: Vec::new(),
    }
}

fn texts(id: &str) -> Option<(String, String, String)> {
    open_confirm_close_overlay(&snapshot(), id.to_string()).map(|o| (o.workspace_id, o.title, o.detail))
}

#[test]
fn closing_a_plain_workspace_counts_its_panes() {
    assert_eq!(
        texts("a"),
        Some(("a".to_string(), "Close workspace?".to_string(), "notes \u{2014} 1 pane".to_string()))
    );
    assert_eq!(
        texts("e"),
        Some(("e".to_string(), "Close workspace?".to_string(), "empty \u{2014} 0 panes".to_string()))
    );
}

#[test]
fn closing_a_main_checkout_closes_its_worktree_group() {
    assert_eq!(
        texts("r"),
        Some((
            "r".to_string(),
            "Close worktree group?".to_string(),
            "api \u{2014} 2 workspaces, 3 panes".to_string()
        ))
    );
}

#[test]
fn closing_a_linked_worktree_closes_it_alone() {
    assert_eq!(
        texts("r2"),
        Some(("r2".to_string(), "Close workspace?".to_string(), "api-fix \u{2014} 1 pane".to_string()))
    );
}

#[test]
fn closing_an_unknown_workspace_asks_nothing() {
    assert_eq!(texts("zz"), None);
}
