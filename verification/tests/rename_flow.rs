use herdr::input::{ClientRenameOverlay, ClientRenameTarget};
use herdr::rename_flow::{
    open_new_tab_overlay, open_rename_pane_overlay, open_rename_tab_overlay, open_rename_workspace_overlay,
    save_rename_overlay, RenameRequest,
};
use herdr::snapshot::{ClientShellPane, ClientShellSnapshot, ClientShellTab, ClientShellWorkspace};
use herdr::status::AgentStatus;

fn prompt(input: &str, target: ClientRenameTarget) -> ClientRenameOverlay {
    ClientRenameOverlay { title: "t", input: input.into(), replace_on_type: false, target }
}

fn describe(r: Option<RenameRequest>) -> Option<String> {
    r.map(|q| match q {
        RenameRequest::WorkspaceCreate { cwd, label } => format!("create-ws {cwd:?} {label:?}"),
        RenameRequest::WorkspaceRename { workspace_id, label } => format!("rename-ws {workspace_id} {label}"),
        RenameRequest::TabCreate { workspace_id, label } => format!("create-tab {workspace_id} {label:?}"),
        RenameRequest::TabRename { tab_id, label } => format!("rename-tab {tab_id} {label}"),
        RenameRequest::PaneRename { pane_id, label } => format!("rename-pane {pane_id} {label}"),
    })
}

#[test]
fn creating_keeps_the_suggested_name_unset() {
    let new_ws = |input: &str| {
        describe(save_rename_overlay(prompt(
            input,
            ClientRenameTarget::NewWorkspace { cwd: Some("/src".into()), suggested_name: "src".into() },
        )))
    };
    assert_eq!(new_ws("  src "), Some("create-ws Some(\"/src\") None".to_string()));
    assert_eq!(new_ws("   "), Some("create-ws Some(\"/src\") None".to_string()));
    assert_eq!(new_ws(" api "), Some("create-ws Some(\"/src\") Some(\"api\")".to_string()));
    let new_tab = |input: &str| {
        describe(save_rename_overlay(prompt(
            input,
            ClientRenameTarget::NewTab { workspace_id: "w1".into(), default_name: "3".into() },
        )))
    };
    assert_eq!(new_tab("3"), Some("create-tab w1 None".to_string()));
    assert_eq!(new_tab("logs"), Some("create-tab w1 Some(\"logs\")".to_string()));
}

#[test]
fn renames_need_a_name() {
    let ws = |input: &str| {
        describe(save_rename_overlay(prompt(input, ClientRenameTarget::Workspace { workspace_id: "w1".into() })))
    };
    assert_eq!(ws("  "), None);
    assert_eq!(ws(" api\t"), Some("rename-ws w1 api".to_string()));
    let pane = describe(save_rename_overlay(prompt(" x ", ClientRenameTarget::Pane { pane_id: "p1".into() })));
    assert_eq!(pane, Some("rename-pane p1 x".to_string()));
    let pane_empty = describe(save_rename_overlay(prompt("", ClientRenameTarget::Pane { pane_id: "p1".into() })));
    assert_eq!(pane_empty, Some("rename-pane p1 ".to_string()));
}

#[test]
fn an_automatically_named_tab_is_not_renamed_to_its_own_name() {
    let tab = |input: &str, auto_name: bool| {
        describe(save_rename_overlay(prompt(
            input,
            ClientRenameTarget::Tab { tab_id: "t1".into(), auto_name, original_name: "zsh".into() },
        )))
    };
    assert_eq!(tab("zsh", true), None);
    assert_eq!(tab("zsh", false), Some("rename-tab t1 zsh".to_string()));
    assert_eq!(tab("vim", true), Some("rename-tab t1 vim".to_string()));
    assert_eq!(tab(" ", false), None);
}

fn session() -> ClientShellSnapshot {
    ClientShellSnapshot {
        boot_id: "boot".into(),
        revision: 1,
        focused_workspace_id: Some("w1".into()),
        focused_tab_id: Some("t2".into()),
        focused_pane_id: Some("p1".into()),
        workspaces: vec![
            ClientShellWorkspace {
                workspace_id: "w1".into(),
                number: 1,
                label: "api".into(),
                custom_label: false,
                branch: None,
                git_ahead_behind: None,
                tokens: Vec::new(),
                worktree: None,
                focused: true,
                agent_status: AgentStatus::Idle,
            },
            ClientShellWorkspace {
                workspace_id: "w2".into(),
                number: 2,
                label: "docs".into(),
                custom_label: true,
                branch: None,
                git_ahead_behind: None,
                tokens: Vec::new(),
                worktree: None,
                focused: false,
                agent_status: AgentStatus::Idle,
            },
        ],
        tabs: vec![
            ClientShellTab {
                tab_id: "t1".into(),
                workspace_id: "w1".into(),
                number: 1,
                label: "zsh".into(),
                custom_label: false,
                zoomed: false,
                focused: false,
                agent_status: AgentStatus::Idle,
            },
            ClientShellTab {
                tab_id: "t2".into(),
                workspace_id: "w1".into(),
                number: 2,
                label: "logs".into(),
                custom_label: true,
                zoomed: false,
                focused: true,
                agent_status: AgentStatus::Idle,
            },
            ClientShellTab {
                tab_id: "t3".into(),
                workspace_id: "w2".into(),
                number: 1,
                label: "vim".into(),
                custom_label: false,
                zoomed: false,
                focused: false,
                agent_status: AgentStatus::Idle,
            },
        ],
        panes: vec![ClientShellPane {
            pane_id: "p1".into(),
            workspace_id: "w1".into(),
            tab_id: "t2".into(),
            label: None,
            cwd: None,
            foreground_cwd: None,
            focused: true,
            right_click_passthrough: false,
        }],
        agents: Vec::new(),
    }
}

#[test]
fn prompts_open_on_what_has_focus() {
    let s = session();
    let ws = open_rename_workspace_overlay(&s, &None).unwrap();
    assert_eq!((ws.title, ws.input.as_str(), ws.replace_on_type), ("rename workspace", "api", false));
    assert!(matches!(ws.target, ClientRenameTarget::Workspace { ref workspace_id } if workspace_id == "w1"));
    let nav = open_rename_workspace_overlay(&s, &Some("w2".into())).unwrap();
    assert_eq!(nav.input, "docs");
    assert!(open_rename_workspace_overlay(&s, &Some("gone".into())).is_none());

    let tab = open_new_tab_overlay(&s).unwrap();
    assert_eq!((tab.title, tab.input.as_str(), tab.replace_on_type), ("new tab", "3", true));
    assert!(matches!(tab.target, ClientRenameTarget::NewTab { ref workspace_id, ref default_name }
        if workspace_id == "w1" && default_name == "3"));

    let rename_tab = open_rename_tab_overlay(&s).unwrap();
    assert_eq!((rename_tab.title, rename_tab.input.as_str(), rename_tab.replace_on_type), ("rename tab", "logs", false));
    assert!(matches!(rename_tab.target, ClientRenameTarget::Tab { ref tab_id, auto_name: false, ref original_name }
        if tab_id == "t2" && original_name == "logs"));

    let pane = open_rename_pane_overlay(&s).unwrap();
    assert_eq!((pane.title, pane.input.as_str(), pane.replace_on_type), ("rename pane", "", true));
    assert!(matches!(pane.target, ClientRenameTarget::Pane { ref pane_id } if pane_id == "p1"));
}

#[test]
fn prompts_need_something_focused() {
    let mut s = session();
    s.focused_workspace_id = None;
    s.focused_tab_id = Some("gone".into());
    s.focused_pane_id = None;
    assert!(open_rename_workspace_overlay(&s, &None).is_none());
    assert!(open_new_tab_overlay(&s).is_none());
    assert!(open_rename_tab_overlay(&s).is_none());
    assert!(open_rename_pane_overlay(&s).is_none());
}
