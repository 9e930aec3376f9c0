use herdr::shell_actions::{endpoint_method_for_action, PaneDirection, ShellAction, ShellMethod, SplitDirection};
use herdr::snapshot::{ClientShellPane, ClientShellSnapshot, ClientShellTab, ClientShellWorkspace};
use herdr::status::AgentStatus;

fn workspace(id: &str) -> ClientShellWorkspace {
    ClientShellWorkspace {
        workspace_id: id.into(),
        number: 1,
        label: id.into(),
        custom_label: false,
        branch: None,
        git_ahead_behind: None,
        tokens: Vec::new(),
        worktree: None,
        focused: false,
        agent_status: AgentStatus::Idle,
    }
}

fn tab(id: &str, ws: &str) -> ClientShellTab {
    ClientShellTab {
        tab_id: id.into(),
        workspace_id: ws.into(),
        number: 1,
        label: id.into(),
        custom_label: false,
        zoomed: false,
        focused: false,
        agent_status: AgentStatus::Idle,
    }
}

fn pane(id: &str, tab: &str) -> ClientShellPane {
    ClientShellPane {
        pane_id: id.into(),
        workspace_id: "w1".into(),
        tab_id: tab.into(),
        label: None,
        cwd: None,
        foreground_cwd: None,
        focused: false,
        right_click_passthrough: false,
    }
}

fn session() -> ClientShellSnapshot {
    ClientShellSnapshot {
        boot_id: "boot".into(),
        revision: 1,
        focused_workspace_id: Some("w1".into()),
        focused_tab_id: Some("t2".into()),
        focused_pane_id: Some("p2".into()),
        workspaces: vec![workspace("w1"), workspace("w2"), workspace("w3")],
        tabs: vec![tab("t1", "w1"), tab("x", "w2"), tab("t2", "w1"), tab("t3", "w1")],
        panes: vec![pane("p1", "t2"), pane("p2", "t2"), pane("p3", "t2"), pane("q", "t1")],
        agents: Vec::new(),
    }
}

fn describe(m: Option<ShellMethod>) -> String {
    match m {
        None => "none".into(),
        Some(m) => format!("{m:?}"),
    }
}

fn run(action: ShellAction) -> String {
    let agents = vec!["p3".to_string(), "q".to_string()];
    describe(endpoint_method_for_action(&session(), &[], &agents, &Some("q".into()), false, action))
}

#[test]
fn workspace_and_tab_actions_step_and_wrap() {
    assert_eq!(run(ShellAction::SwitchWorkspace(1)), "WorkspaceFocus { workspace_id: \"w2\" }");
    assert_eq!(run(ShellAction::SwitchWorkspace(3)), "none");
    assert_eq!(run(ShellAction::PreviousWorkspace), "WorkspaceFocus { workspace_id: \"w3\" }");
    assert_eq!(run(ShellAction::NextWorkspace), "WorkspaceFocus { workspace_id: \"w2\" }");
    assert_eq!(run(ShellAction::SwitchTab(2)), "TabFocus { tab_id: \"t3\" }");
    assert_eq!(run(ShellAction::SwitchTab(3)), "none");
    assert_eq!(run(ShellAction::PreviousTab), "TabFocus { tab_id: \"t1\" }");
    assert_eq!(run(ShellAction::NextTab), "TabFocus { tab_id: \"t3\" }");
    assert_eq!(run(ShellAction::MoveTabNext), "TabMove { tab_id: \"t2\", insert_index: 3 }");
    assert_eq!(run(ShellAction::MoveTabPrevious), "TabMove { tab_id: \"t2\", insert_index: 0 }");
}

#[test]
fn pane_and_agent_actions_target_the_focused_pane() {
    assert_eq!(run(ShellAction::NextAgent), "PaneFocus { pane_id: \"q\" }");
    assert_eq!(run(ShellAction::PreviousAgent), "PaneFocus { pane_id: \"q\" }");
    assert_eq!(run(ShellAction::FocusAgent(1)), "PaneFocus { pane_id: \"q\" }");
    assert_eq!(run(ShellAction::FocusAgent(2)), "none");
    assert_eq!(run(ShellAction::CyclePaneNext), "PaneFocus { pane_id: \"p3\" }");
    assert_eq!(run(ShellAction::CyclePanePrevious), "PaneFocus { pane_id: \"p1\" }");
    assert_eq!(run(ShellAction::LastPane), "PaneFocus { pane_id: \"q\" }");
    assert_eq!(run(ShellAction::ClosePane), "PaneClose { pane_id: \"p2\" }");
    assert_eq!(run(ShellAction::CloseTab), "TabClose { tab_id: \"t2\" }");
    assert_eq!(
        run(ShellAction::FocusPane(PaneDirection::Left)),
        "PaneFocusDirection { pane_id: Some(\"p2\"), direction: Left }"
    );
    assert_eq!(
        describe(endpoint_method_for_action(&session(), &[], &[], &None, false, ShellAction::SplitVertical)),
        format!("{:?}", Some(ShellMethod::PaneSplit {
            workspace_id: "w1".into(),
            target_pane_id: Some("p2".into()),
            direction: SplitDirection::Right
        }).unwrap())
    );
    assert_eq!(run(ShellAction::Local), "none");
}

#[test]
fn new_tab_asks_for_a_name_when_configured_and_nothing_without_focus() {
    assert_eq!(run(ShellAction::NewTab), "TabCreate { workspace_id: \"w1\" }");
    assert_eq!(
        describe(endpoint_method_for_action(&session(), &[], &[], &None, true, ShellAction::NewTab)),
        "none"
    );
    let mut s = session();
    s.focused_workspace_id = None;
    assert_eq!(describe(endpoint_method_for_action(&s, &[], &[], &None, false, ShellAction::Zoom)), "none");
    let mut last = session();
    last.focused_pane_id = Some("q".into());
    assert_eq!(
        describe(endpoint_method_for_action(&last, &[], &[], &Some("q".into()), false, ShellAction::LastPane)),
        "none"
    );
}

use herdr::commands::{ClientShellCommand, ClientShellCommandAction, CustomCommandAction};
use herdr::shell_bindings::{
    record_binding, BindingConfig, BindingState, BoundAction, KeybindMatch, ShellMode,
};

fn terminal_state() -> BindingState {
    BindingState {
        mode: ShellMode::Prefix,
        navigate_workspace_id: None,
        sidebar_collapsed: false,
        sidebar_collapsed_manual: false,
        endpoint_error: None,
    }
}

const PLAIN: BindingConfig = BindingConfig { prompt_new_workspace_name: false, confirm_close: false, prompt_new_tab_name: false };

fn bind(state: &mut BindingState, config: BindingConfig, binding: KeybindMatch) -> String {
    let commands = vec![ClientShellCommand {
        command_id: "cmd_ns_0".into(),
        binding_label: "prefix+g".into(),
        action: ClientShellCommandAction::Shell,
    }];
    let effect = record_binding(state, config, &Some(session()), &commands, &[], &[], &None, &binding);
    format!("{effect:?}")
}

#[test]
fn toggling_the_sidebar_records_a_manual_choice() {
    let mut state = terminal_state();
    assert_eq!(bind(&mut state, PLAIN, KeybindMatch::Action(BoundAction::ToggleSidebar)), "SidebarToggled");
    assert!(state.sidebar_collapsed);
    assert!(state.sidebar_collapsed_manual);
    bind(&mut state, PLAIN, KeybindMatch::Action(BoundAction::ToggleSidebar));
    assert!(!state.sidebar_collapsed);
}

#[test]
fn closing_a_workspace_asks_first_when_configured() {
    let mut state = terminal_state();
    let confirm = BindingConfig { confirm_close: true, ..PLAIN };
    assert_eq!(
        bind(&mut state, confirm, KeybindMatch::Action(BoundAction::CloseWorkspace)),
        "ConfirmCloseWorkspace(\"w1\")"
    );
    state.navigate_workspace_id = Some("w3".into());
    assert_eq!(bind(&mut state, PLAIN, KeybindMatch::Action(BoundAction::CloseWorkspace)), "CloseWorkspace(\"w3\")");
}

#[test]
fn the_workspace_picker_starts_at_the_focused_workspace() {
    let mut state = terminal_state();
    assert_eq!(bind(&mut state, PLAIN, KeybindMatch::Action(BoundAction::WorkspacePicker)), "Repaint");
    assert_eq!(state.mode, ShellMode::Navigate);
    assert_eq!(state.navigate_workspace_id.as_deref(), Some("w1"));
    bind(&mut state, PLAIN, KeybindMatch::Action(BoundAction::EnterResizeMode));
    assert_eq!(state.mode, ShellMode::Resize);
}

#[test]
fn bound_actions_reach_the_endpoint_or_the_shell() {
    let mut state = terminal_state();
    assert_eq!(
        bind(&mut state, PLAIN, KeybindMatch::Action(BoundAction::Shell(ShellAction::NextTab))),
        "Endpoint(TabFocus { tab_id: \"t3\" })"
    );
    let prompt = BindingConfig { prompt_new_tab_name: true, ..PLAIN };
    assert_eq!(bind(&mut state, prompt, KeybindMatch::Action(BoundAction::Shell(ShellAction::NewTab))), "OpenNewTab");
    assert_eq!(bind(&mut state, PLAIN, KeybindMatch::Action(BoundAction::Shell(ShellAction::Local))), "Keybind");
    let named = BindingConfig { prompt_new_workspace_name: true, ..PLAIN };
    assert_eq!(bind(&mut state, named, KeybindMatch::Action(BoundAction::NewWorkspace)), "OpenNewWorkspace");
    assert_eq!(bind(&mut state, PLAIN, KeybindMatch::Action(BoundAction::NewWorkspace)), "CreateWorkspace");
    assert_eq!(bind(&mut state, PLAIN, KeybindMatch::Action(BoundAction::Detach)), "Detach");
}

#[test]
fn custom_commands_invoke_the_offered_id_for_the_focused_target() {
    let mut state = terminal_state();
    let effect = bind(
        &mut state,
        PLAIN,
        KeybindMatch::Command { label: "prefix+g".into(), action: CustomCommandAction::Shell },
    );
    assert_eq!(
        effect,
        "InvokeCommand(CommandInvokeParams { command_id: \"cmd_ns_0\", workspace_id: Some(\"w1\"), tab_id: Some(\"t2\"), pane_id: Some(\"p2\") })"
    );
    assert!(state.endpoint_error.is_none());
    let effect =
        bind(&mut state, PLAIN, KeybindMatch::Command { label: "prefix+h".into(), action: CustomCommandAction::Shell });
    assert_eq!(effect, "Repaint");
    assert_eq!(
        state.endpoint_error.as_deref(),
        Some("custom command is not available on this endpoint; reload configuration")
    );
    let mut state = terminal_state();
    bind(&mut state, PLAIN, KeybindMatch::Command { label: "prefix+g".into(), action: CustomCommandAction::Popup });
    assert!(state.endpoint_error.is_some());
}

use herdr::geometry::Rect;
use herdr::shell_bindings::{route_navigate_key, NavigateKey, PlainKey};
use herdr::topology::{PaneSurfaceFrame, PaneSurfacePane};

fn no_key() -> NavigateKey {
    NavigateKey {
        leaves: false,
        workspace_up: false,
        workspace_down: false,
        digit: None,
        plain: None,
        pane_left: false,
        pane_down: false,
        pane_up: false,
        pane_right: false,
        action: None,
        command: None,
        indexed: None,
    }
}

fn surface_pane(id: &str) -> PaneSurfacePane {
    PaneSurfacePane {
        pane_id: id.into(),
        rect: Rect::new(0, 0, 10, 10),
        inner_rect: Rect::new(1, 1, 8, 8),
        scrollbar_rect: None,
        focused: false,
        mouse_reporting: false,
        sgr_pixel_mouse: false,
        pixel_width: 0,
        pixel_height: 0,
    }
}

fn navigating(selected: Option<&str>) -> BindingState {
    BindingState {
        mode: ShellMode::Navigate,
        navigate_workspace_id: selected.map(Into::into),
        sidebar_collapsed: false,
        sidebar_collapsed_manual: false,
        endpoint_error: None,
    }
}

fn navigate(state: &mut BindingState, key: NavigateKey) -> (String, bool) {
    let surface = PaneSurfaceFrame {
        projection_revision: 1,
        panes: vec![surface_pane("p1"), surface_pane("p2"), surface_pane("p3")],
        splits: Vec::new(),
    };
    let (effect, repaint) =
        route_navigate_key(state, PLAIN, &Some(session()), &Some(surface), &[], &[], &[], &None, &key);
    (format!("{effect:?}"), repaint)
}

#[test]
fn navigate_mode_moves_the_selection_and_enter_focuses_it() {
    let mut state = navigating(Some("w1"));
    assert_eq!(navigate(&mut state, NavigateKey { workspace_down: true, ..no_key() }), ("Nothing".into(), true));
    assert_eq!(state.navigate_workspace_id.as_deref(), Some("w2"));
    navigate(&mut state, NavigateKey { workspace_up: true, ..no_key() });
    navigate(&mut state, NavigateKey { workspace_up: true, ..no_key() });
    assert_eq!(state.navigate_workspace_id.as_deref(), Some("w3"));
    let (effect, _) = navigate(&mut state, NavigateKey { plain: Some(PlainKey::Enter), ..no_key() });
    assert_eq!(effect, "Endpoint(WorkspaceFocus { workspace_id: \"w3\" })");
    assert_eq!(state.mode, ShellMode::Terminal);
    assert!(state.navigate_workspace_id.is_none());
}

#[test]
fn navigate_mode_leaves_on_escape_and_switches_on_a_digit() {
    let mut state = navigating(Some("w2"));
    assert_eq!(navigate(&mut state, NavigateKey { leaves: true, ..no_key() }), ("Nothing".into(), true));
    assert_eq!(state.mode, ShellMode::Terminal);
    let mut state = navigating(Some("w2"));
    let (effect, _) = navigate(&mut state, NavigateKey { digit: Some(2), ..no_key() });
    assert_eq!(effect, "Endpoint(WorkspaceFocus { workspace_id: \"w3\" })");
    assert_eq!(state.mode, ShellMode::Terminal);
}

#[test]
fn navigate_mode_cycles_panes_and_keeps_pane_focus_moves() {
    let mut state = navigating(Some("w1"));
    let (effect, _) = navigate(&mut state, NavigateKey { plain: Some(PlainKey::Tab), ..no_key() });
    assert_eq!(effect, "Endpoint(PaneFocus { pane_id: \"p3\" })");
    assert_eq!(state.mode, ShellMode::Terminal);
    let mut state = navigating(Some("w1"));
    let (effect, _) = navigate(&mut state, NavigateKey { plain: Some(PlainKey::BackTab), ..no_key() });
    assert_eq!(effect, "Endpoint(PaneFocus { pane_id: \"p1\" })");
    let mut state = navigating(Some("w1"));
    let (effect, _) = navigate(&mut state, NavigateKey { pane_up: true, pane_right: true, ..no_key() });
    assert_eq!(effect, "Endpoint(PaneFocusDirection { pane_id: Some(\"p2\"), direction: Up })");
    assert_eq!(state.mode, ShellMode::Navigate);
    assert_eq!(state.navigate_workspace_id.as_deref(), Some("w1"));
}

#[test]
fn navigate_mode_skips_pane_focus_actions_of_prefix_bindings() {
    let mut state = navigating(Some("w1"));
    let key = NavigateKey {
        action: Some(BoundAction::Shell(ShellAction::FocusPane(PaneDirection::Left))),
        indexed: Some(BoundAction::Shell(ShellAction::SwitchTab(0))),
        ..no_key()
    };
    let (effect, repaint) = navigate(&mut state, key);
    assert_eq!(effect, "Endpoint(TabFocus { tab_id: \"t1\" })");
    assert!(repaint);
    assert_eq!(state.mode, ShellMode::Terminal);
    let mut state = navigating(Some("w1"));
    let key = NavigateKey { action: Some(BoundAction::WorkspacePicker), ..no_key() };
    navigate(&mut state, key);
    assert_eq!(state.mode, ShellMode::Terminal);
    assert!(state.navigate_workspace_id.is_none());
    let mut state = navigating(Some("w1"));
    assert_eq!(navigate(&mut state, no_key()), ("Nothing".into(), false));
    assert_eq!(state.mode, ShellMode::Navigate);
}

use herdr::overlay_keys::OverlayKeyCode;
use herdr::shell_bindings::route_confirm_close_key;

#[test]
fn the_close_confirmation_closes_on_enter_and_returns_to_navigate_on_escape() {
    let mut state = terminal_state();
    let (effect, closes) = route_confirm_close_key(&mut state, &Some(session()), "w2", OverlayKeyCode::Enter);
    assert_eq!(format!("{effect:?}"), "CloseWorkspace(\"w2\")");
    assert!(closes);
    let (effect, closes) = route_confirm_close_key(&mut state, &Some(session()), "w2", OverlayKeyCode::Esc);
    assert_eq!(format!("{effect:?}"), "Repaint");
    assert!(closes);
    assert_eq!(state.mode, ShellMode::Navigate);
    assert_eq!(state.navigate_workspace_id.as_deref(), Some("w1"));
    let (_, closes) = route_confirm_close_key(&mut state, &Some(session()), "w2", OverlayKeyCode::Char('y'));
    assert!(!closes);
}
