//! What the client shell does with a key binding that matched: the state it
//! changes and the one effect it asks of the caller.
use vstd::prelude::*;

use crate::commands::{spec_client_shell_action, ClientShellCommand, CommandInvokeParams, CustomCommandAction};
use crate::shell_actions::{
    clone_opt, endpoint_method_for_action, spec_method_for_action, MethodView, PaneDirection, ShellAction, ShellMethod,
};
use crate::overlay_keys::OverlayKeyCode;
use crate::shell_focus::{cycle_pane, cycle_target, move_navigate_workspace, navigate_target};
use crate::sidebar::spec_workspace_entries;
use crate::topology::PaneSurfaceFrame;
use crate::snapshot::{opt_view, ClientShellSnapshot};
use crate::text::{names_view, str_equal};

verus! {

/// An action a key binding names.
#[derive(Clone, Copy, Debug, PartialEq, Eq, Structural)]
pub enum BoundAction {
    Detach,
    ToggleSidebar,
    NewWorktree,
    OpenWorktree,
    RemoveWorktree,
    OpenNavigator,
    Help,
    Settings,
    OpenNotificationTarget,
    ReloadConfig,
    NewWorkspace,
    RenameWorkspace,
    CloseWorkspace,
    RenameTab,
    RenamePane,
    WorkspacePicker,
    EnterResizeMode,
    CopyMode,
    /// An action that may reach the endpoint as a request.
    Shell(ShellAction),
}

/// A key binding that matched: an action, or the custom command bound under `label`.
#[derive(Debug)]
pub enum KeybindMatch {
    Action(BoundAction),
    Command { label: String, action: CustomCommandAction },
}

/// Which keys the shell routes.
#[derive(Clone, Copy, Debug, PartialEq, Eq, Structural)]
pub enum ShellMode {
    Terminal,
    Prefix,
    Navigate,
    Resize,
}

/// The settings a binding consults.
#[derive(Clone, Copy, Debug)]
pub struct BindingConfig {
    pub prompt_new_workspace_name: bool,
    pub confirm_close: bool,
    pub prompt_new_tab_name: bool,
}

/// The part of the shell's state a binding changes.
#[derive(Debug)]
pub struct BindingState {
    pub mode: ShellMode,
    /// The workspace selected while navigating.
    pub navigate_workspace_id: Option<String>,
    pub sidebar_collapsed: bool,
    /// Whether the user, not the width, decided the sidebar's state.
    pub sidebar_collapsed_manual: bool,
    pub endpoint_error: Option<String>,
}

/// The state as plain values.
pub ghost struct BindingStateView {
    pub mode: ShellMode,
    pub navigate_workspace_id: Option<Seq<char>>,
    pub sidebar_collapsed: bool,
    pub sidebar_collapsed_manual: bool,
    pub endpoint_error: Option<Seq<char>>,
}

impl BindingState {
    pub open spec fn view(&self) -> BindingStateView {
        BindingStateView {
            mode: self.mode,
            navigate_workspace_id: opt_view(self.navigate_workspace_id),
            sidebar_collapsed: self.sidebar_collapsed,
            sidebar_collapsed_manual: self.sidebar_collapsed_manual,
            endpoint_error: opt_view(self.endpoint_error),
        }
    }
}

/// What the caller does after a binding: `SidebarToggled` repaints, resizes and
/// saves the chrome preferences; `ReloadConfig` sends the reload request, reloads
/// the configuration and repaints; `CreateWorkspace` asks for a focused workspace
/// with no name or directory; `Repaint` only repaints; `Keybind` hands the action
/// to the caller's own handling; `InvokeCommand` sends the invocation; `Nothing`
/// does nothing. Each `Open..` opens that prompt or overlay and repaints.
#[derive(Debug)]
pub enum BindingEffect {
    Detach,
    SidebarToggled,
    BeginWorktree(BoundAction),
    OpenNavigator,
    OpenHelp,
    OpenSettings,
    FocusNotification,
    ReloadConfig,
    OpenNewWorkspace,
    CreateWorkspace,
    OpenRenameWorkspace,
    ConfirmCloseWorkspace(String),
    CloseWorkspace(String),
    OpenNewTab,
    OpenRenameTab,
    OpenRenamePane,
    Repaint,
    EnterCopyMode,
    Endpoint(ShellMethod),
    Keybind,
    InvokeCommand(CommandInvokeParams),
    Nothing,
}

/// A command invocation as plain values.
pub ghost struct InvokeView {
    pub command_id: Seq<char>,
    pub workspace_id: Option<Seq<char>>,
    pub tab_id: Option<Seq<char>>,
    pub pane_id: Option<Seq<char>>,
}

/// The effect as plain values.
pub ghost enum EffectView {
    Detach,
    SidebarToggled,
    BeginWorktree(BoundAction),
    OpenNavigator,
    OpenHelp,
    OpenSettings,
    FocusNotification,
    ReloadConfig,
    OpenNewWorkspace,
    CreateWorkspace,
    OpenRenameWorkspace,
    ConfirmCloseWorkspace(Seq<char>),
    CloseWorkspace(Seq<char>),
    OpenNewTab,
    OpenRenameTab,
    OpenRenamePane,
    Repaint,
    EnterCopyMode,
    Endpoint(MethodView),
    Keybind,
    InvokeCommand(InvokeView),
    Nothing,
}

impl BindingEffect {
    pub open spec fn view(&self) -> EffectView {
        match self {
            BindingEffect::Detach => EffectView::Detach,
            BindingEffect::SidebarToggled => EffectView::SidebarToggled,
            BindingEffect::BeginWorktree(a) => EffectView::BeginWorktree(*a),
            BindingEffect::OpenNavigator => EffectView::OpenNavigator,
            BindingEffect::OpenHelp => EffectView::OpenHelp,
            BindingEffect::OpenSettings => EffectView::OpenSettings,
            BindingEffect::FocusNotification => EffectView::FocusNotification,
            BindingEffect::ReloadConfig => EffectView::ReloadConfig,
            BindingEffect::OpenNewWorkspace => EffectView::OpenNewWorkspace,
            BindingEffect::CreateWorkspace => EffectView::CreateWorkspace,
            BindingEffect::OpenRenameWorkspace => EffectView::OpenRenameWorkspace,
            BindingEffect::ConfirmCloseWorkspace(w) => EffectView::ConfirmCloseWorkspace(w@),
            BindingEffect::CloseWorkspace(w) => EffectView::CloseWorkspace(w@),
            BindingEffect::OpenNewTab => EffectView::OpenNewTab,
            BindingEffect::OpenRenameTab => EffectView::OpenRenameTab,
            BindingEffect::OpenRenamePane => EffectView::OpenRenamePane,
            BindingEffect::Repaint => EffectView::Repaint,
            BindingEffect::EnterCopyMode => EffectView::EnterCopyMode,
            BindingEffect::Endpoint(m) => EffectView::Endpoint(m.view()),
            BindingEffect::Keybind => EffectView::Keybind,
            BindingEffect::InvokeCommand(p) => EffectView::InvokeCommand(
                InvokeView {
                    command_id: p.command_id@,
                    workspace_id: opt_view(p.workspace_id),
                    tab_id: opt_view(p.tab_id),
                    pane_id: opt_view(p.pane_id),
                },
            ),
            BindingEffect::Nothing => EffectView::Nothing,
        }
    }
}

/// Whether manifest entry `c` is the command bound under `label` with `action`.
pub open spec fn offers(c: ClientShellCommand, label: Seq<char>, action: CustomCommandAction) -> bool {
    c.binding_label@ == label && spec_client_shell_action(action) == Some(c.action)
}

/// The id of the first manifest entry bound under `label` with `action`.
pub open spec fn spec_command_id(commands: Seq<ClientShellCommand>, label: Seq<char>, action: CustomCommandAction) -> Option<
    Seq<char>,
>
    decreases commands.len(),
{
    if commands.len() == 0 {
        None
    } else if offers(commands[0], label, action) {
        Some(commands[0].command_id@)
    } else {
        spec_command_id(commands.drop_first(), label, action)
    }
}

/// The workspace a workspace action applies to: the one selected while
/// navigating, else the focused one.
pub open spec fn spec_workspace_action_id(
    navigate: Option<Seq<char>>,
    snapshot: Option<ClientShellSnapshot>,
) -> Option<Seq<char>> {
    match navigate {
        Some(w) => Some(w),
        None => match snapshot {
            Some(s) => opt_view(s.focused_workspace_id),
            None => None,
        },
    }
}

/// The message shown for a custom command the endpoint does not offer.
pub open spec fn unavailable_command() -> Seq<char> {
    "custom command is not available on this endpoint; reload configuration"@
}

/// What binding `b` does in state `s`: the state after it and the effect asked
/// of the caller. `snapshot` is the endpoint's last snapshot, `commands` its
/// manifest, and `collapsed`, `agents`, `previous_pane` what the request for
/// an action needs (see `spec_method_for_action`).
pub open spec fn spec_record_binding(
    s: BindingStateView,
    config: BindingConfig,
    snapshot: Option<ClientShellSnapshot>,
    commands: Seq<ClientShellCommand>,
    collapsed: Seq<Seq<char>>,
    agents: Seq<Seq<char>>,
    previous_pane: Option<Seq<char>>,
    b: BindingMatchView,
) -> (BindingStateView, EffectView) {
    match b {
        BindingMatchView::Command { label, action } => match spec_command_id(commands, label, action) {
            None => (BindingStateView { endpoint_error: Some(unavailable_command()), ..s }, EffectView::Repaint),
            Some(id) => match snapshot {
                None => (s, EffectView::Nothing),
                Some(snap) => (
                    s,
                    EffectView::InvokeCommand(
                        InvokeView {
                            command_id: id,
                            workspace_id: opt_view(snap.focused_workspace_id),
                            tab_id: opt_view(snap.focused_tab_id),
                            pane_id: opt_view(snap.focused_pane_id),
                        },
                    ),
                ),
            },
        },
        BindingMatchView::Action(a) => match a {
            BoundAction::Detach => (s, EffectView::Detach),
            BoundAction::ToggleSidebar => (
                BindingStateView { sidebar_collapsed: !s.sidebar_collapsed, sidebar_collapsed_manual: true, ..s },
                EffectView::SidebarToggled,
            ),
            BoundAction::NewWorktree | BoundAction::OpenWorktree | BoundAction::RemoveWorktree => (
                s,
                EffectView::BeginWorktree(a),
            ),
            BoundAction::OpenNavigator => (s, EffectView::OpenNavigator),
            BoundAction::Help => (s, EffectView::OpenHelp),
            BoundAction::Settings => (s, EffectView::OpenSettings),
            BoundAction::OpenNotificationTarget => (s, EffectView::FocusNotification),
            BoundAction::ReloadConfig => (s, EffectView::ReloadConfig),
            BoundAction::NewWorkspace => if config.prompt_new_workspace_name {
                (s, EffectView::OpenNewWorkspace)
            } else {
                (s, EffectView::CreateWorkspace)
            },
            BoundAction::RenameWorkspace => (s, EffectView::OpenRenameWorkspace),
            BoundAction::CloseWorkspace => match spec_workspace_action_id(s.navigate_workspace_id, snapshot) {
                None => (s, EffectView::Repaint),
                Some(w) => if config.confirm_close {
                    (s, EffectView::ConfirmCloseWorkspace(w))
                } else {
                    (s, EffectView::CloseWorkspace(w))
                },
            },
            BoundAction::RenameTab => (s, EffectView::OpenRenameTab),
            BoundAction::RenamePane => (s, EffectView::OpenRenamePane),
            BoundAction::WorkspacePicker => (
                BindingStateView {
                    mode: ShellMode::Navigate,
                    navigate_workspace_id: match snapshot {
                        Some(snap) => opt_view(snap.focused_workspace_id),
                        None => None,
                    },
                    ..s
                },
                EffectView::Repaint,
            ),
            BoundAction::EnterResizeMode => (BindingStateView { mode: ShellMode::Resize, ..s }, EffectView::Repaint),
            BoundAction::CopyMode => (s, EffectView::EnterCopyMode),
            BoundAction::Shell(action) => if action == ShellAction::NewTab && config.prompt_new_tab_name {
                (s, EffectView::OpenNewTab)
            } else {
                match snapshot {
                    None => (s, EffectView::Keybind),
                    Some(snap) => match spec_method_for_action(
                        snap,
                        collapsed,
                        agents,
                        previous_pane,
                        config.prompt_new_tab_name,
                        action,
                    ) {
                        Some(m) => (s, EffectView::Endpoint(m)),
                        None => (s, EffectView::Keybind),
                    },
                }
            },
        },
    }
}

/// A matched binding as plain values.
pub ghost enum BindingMatchView {
    Action(BoundAction),
    Command { label: Seq<char>, action: CustomCommandAction },
}

impl KeybindMatch {
    pub open spec fn view(&self) -> BindingMatchView {
        match self {
            KeybindMatch::Action(a) => BindingMatchView::Action(*a),
            KeybindMatch::Command { label, action } => BindingMatchView::Command { label: label@, action: *action },
        }
    }
}

fn action_matches(wanted: CustomCommandAction, offered: &ClientShellCommand) -> (r: bool)
    ensures
        r == (spec_client_shell_action(wanted) == Some(offered.action)),
{
    match wanted {
        CustomCommandAction::Shell => true,
        CustomCommandAction::Popup => false,
    }
}

/// The id of the manifest entry a custom command binding names, as
/// `spec_command_id` says.
pub fn command_id_for(commands: &[ClientShellCommand], label: &str, action: CustomCommandAction) -> (r: Option<String>)
    ensures
        opt_view(r) == spec_command_id(commands@, label@, action),
{
    let mut i: usize = 0;
    assert(commands@.subrange(0, commands@.len() as int) =~= commands@);
    while i < commands.len()
        invariant
            i <= commands@.len(),
            spec_command_id(commands@, label@, action) == spec_command_id(
                commands@.subrange(i as int, commands@.len() as int),
                label@,
                action,
            ),
        decreases commands@.len() - i,
    {
        let ghost rest = commands@.subrange(i as int, commands@.len() as int);
        assert(rest.drop_first() =~= commands@.subrange(i + 1, commands@.len() as int));
        assert(rest[0] == commands@[i as int]);
        let c = &commands[i];
        if str_equal(c.binding_label.as_str(), label) && action_matches(action, c) {
            return Some(c.command_id.clone());
        }
        i = i + 1;
    }
    assert(commands@.subrange(i as int, commands@.len() as int).len() == 0);
    None
}

/// Carries out binding `binding` as `spec_record_binding` says: `state` becomes
/// the state it names and the effect is returned. `snapshot` is the endpoint's
/// last snapshot, `commands` its command manifest, `collapsed_groups`,
/// `agent_pane_ids` and `previous_pane_id` what a request for an action needs.
pub fn record_binding(
    state: &mut BindingState,
    config: BindingConfig,
    snapshot: &Option<ClientShellSnapshot>,
    commands: &[ClientShellCommand],
    collapsed_groups: &[String],
    agent_pane_ids: &[String],
    previous_pane_id: &Option<String>,
    binding: &KeybindMatch,
) -> (effect: BindingEffect)
    ensures
        (final(state)@, effect@) == spec_record_binding(
            old(state)@,
            config,
            *snapshot,
            commands@,
            names_view(collapsed_groups@),
            names_view(agent_pane_ids@),
            opt_view(*previous_pane_id),
            binding@,
        ),
{
    match binding {
        KeybindMatch::Command { label, action } => {
            let id = match command_id_for(commands, label.as_str(), *action) {
                Some(id) => id,
                None => {
                    let message = "custom command is not available on this endpoint; reload configuration";
                    state.endpoint_error = Some(message.to_owned());
                    return BindingEffect::Repaint;
                },
            };
            match snapshot {
                None => BindingEffect::Nothing,
                Some(snap) => BindingEffect::InvokeCommand(
                    CommandInvokeParams {
                        command_id: id,
                        workspace_id: clone_opt(&snap.focused_workspace_id),
                        tab_id: clone_opt(&snap.focused_tab_id),
                        pane_id: clone_opt(&snap.focused_pane_id),
                    },
                ),
            }
        },
        KeybindMatch::Action(a) => record_action(state, config, snapshot, collapsed_groups, agent_pane_ids, previous_pane_id, *a),
    }
}

fn record_action(
    state: &mut BindingState,
    config: BindingConfig,
    snapshot: &Option<ClientShellSnapshot>,
    collapsed_groups: &[String],
    agent_pane_ids: &[String],
    previous_pane_id: &Option<String>,
    a: BoundAction,
) -> (effect: BindingEffect)
    ensures
        (final(state)@, effect@) == spec_record_binding(
            old(state)@,
            config,
            *snapshot,
            Seq::empty(),
            names_view(collapsed_groups@),
            names_view(agent_pane_ids@),
            opt_view(*previous_pane_id),
            BindingMatchView::Action(a),
        ),
{
    match a {
        BoundAction::Detach => BindingEffect::Detach,
        BoundAction::ToggleSidebar => {
            state.sidebar_collapsed = !state.sidebar_collapsed;
            state.sidebar_collapsed_manual = true;
            BindingEffect::SidebarToggled
        },
        BoundAction::NewWorktree | BoundAction::OpenWorktree | BoundAction::RemoveWorktree => BindingEffect::BeginWorktree(a),
        BoundAction::OpenNavigator => BindingEffect::OpenNavigator,
        BoundAction::Help => BindingEffect::OpenHelp,
        BoundAction::Settings => BindingEffect::OpenSettings,
        BoundAction::OpenNotificationTarget => BindingEffect::FocusNotification,
        BoundAction::ReloadConfig => BindingEffect::ReloadConfig,
        BoundAction::NewWorkspace => if config.prompt_new_workspace_name {
            BindingEffect::OpenNewWorkspace
        } else {
            BindingEffect::CreateWorkspace
        },
        BoundAction::RenameWorkspace => BindingEffect::OpenRenameWorkspace,
        BoundAction::CloseWorkspace => {
            let target = match &state.navigate_workspace_id {
                Some(w) => Some(w.clone()),
                None => match snapshot {
                    Some(snap) => clone_opt(&snap.focused_workspace_id),
                    None => None,
                },
            };
            match target {
                None => BindingEffect::Repaint,
                Some(w) => if config.confirm_close {
                    BindingEffect::ConfirmCloseWorkspace(w)
                } else {
                    BindingEffect::CloseWorkspace(w)
                },
            }
        },
        BoundAction::RenameTab => BindingEffect::OpenRenameTab,
        BoundAction::RenamePane => BindingEffect::OpenRenamePane,
        BoundAction::WorkspacePicker => {
            state.mode = ShellMode::Navigate;
            state.navigate_workspace_id = match snapshot {
                Some(snap) => clone_opt(&snap.focused_workspace_id),
                None => None,
            };
            BindingEffect::Repaint
        },
        BoundAction::EnterResizeMode => {
            state.mode = ShellMode::Resize;
            BindingEffect::Repaint
        },
        BoundAction::CopyMode => BindingEffect::EnterCopyMode,
        BoundAction::Shell(action) => {
            if action == ShellAction::NewTab && config.prompt_new_tab_name {
                return BindingEffect::OpenNewTab;
            }
            match snapshot {
                None => BindingEffect::Keybind,
                Some(snap) => match endpoint_method_for_action(
                    snap,
                    collapsed_groups,
                    agent_pane_ids,
                    previous_pane_id,
                    config.prompt_new_tab_name,
                    action,
                ) {
                    Some(m) => BindingEffect::Endpoint(m),
                    None => BindingEffect::Keybind,
                },
            }
        },
    }
}


/// A key navigate mode gives a meaning of its own when pressed with no modifier.
#[derive(Clone, Copy, Debug, PartialEq, Eq, Structural)]
pub enum PlainKey {
    Enter,
    Tab,
    BackTab,
    Left,
    Right,
}

/// What the configuration makes of a key pressed in navigate mode: each field
/// answers one question about the key.
#[derive(Debug)]
pub struct NavigateKey {
    /// Escape, or the prefix key.
    pub leaves: bool,
    pub workspace_up: bool,
    pub workspace_down: bool,
    /// A digit 1 to 9 with no modifier, as 0 to 8.
    pub digit: Option<usize>,
    pub plain: Option<PlainKey>,
    /// Which of the navigate pane bindings (left, down, up, right) the key matches.
    pub pane_left: bool,
    pub pane_down: bool,
    pub pane_up: bool,
    pub pane_right: bool,
    /// The action, other than an indexed one, the key's prefix binding names.
    pub action: Option<BoundAction>,
    /// The custom command (its label and action) the key's prefix binding names.
    pub command: Option<(String, CustomCommandAction)>,
    /// The indexed action the key's prefix binding names.
    pub indexed: Option<BoundAction>,
}

/// The request cycling the focused tab's panes asks for, if any.
pub open spec fn cycle_effect(
    snapshot: Option<ClientShellSnapshot>,
    surface: Option<PaneSurfaceFrame>,
    reverse: bool,
) -> EffectView {
    match (snapshot, surface) {
        (Some(snap), Some(sf)) => match cycle_target(snap, sf, reverse) {
            Some(p) => EffectView::Endpoint(MethodView::PaneFocus { pane_id: p }),
            None => EffectView::Nothing,
        },
        _ => EffectView::Nothing,
    }
}

/// Navigate mode left: no workspace selected.
pub open spec fn left_navigate(s: BindingStateView) -> BindingStateView {
    BindingStateView { mode: ShellMode::Terminal, navigate_workspace_id: None, ..s }
}

/// A binding taken in navigate mode: cycling panes focuses the next (or
/// previous) pane; anything else is recorded as `spec_record_binding` says.
/// Unless `preserve` holds, navigate mode is left before and after.
pub open spec fn spec_navigate_binding(
    s: BindingStateView,
    config: BindingConfig,
    snapshot: Option<ClientShellSnapshot>,
    surface: Option<PaneSurfaceFrame>,
    commands: Seq<ClientShellCommand>,
    collapsed: Seq<Seq<char>>,
    agents: Seq<Seq<char>>,
    previous_pane: Option<Seq<char>>,
    b: BindingMatchView,
    preserve: bool,
) -> (BindingStateView, EffectView) {
    let (s1, e) = match b {
        BindingMatchView::Action(BoundAction::Shell(ShellAction::CyclePaneNext)) => (s, cycle_effect(snapshot, surface, false)),
        BindingMatchView::Action(BoundAction::Shell(ShellAction::CyclePanePrevious)) => (
            s,
            cycle_effect(snapshot, surface, true),
        ),
        _ => spec_record_binding(
            if preserve { s } else { left_navigate(s) },
            config,
            snapshot,
            commands,
            collapsed,
            agents,
            previous_pane,
            b,
        ),
    };
    if preserve {
        (s1, e)
    } else {
        (
            BindingStateView {
                mode: if s1.mode == ShellMode::Navigate { ShellMode::Terminal } else { s1.mode },
                navigate_workspace_id: None,
                ..s1
            },
            e,
        )
    }
}

/// The pane direction a key's navigate pane bindings name: left, down, up,
/// right, the first that matches.
pub open spec fn pane_binding(key: NavigateKeyView) -> Option<PaneDirection> {
    if key.pane_left {
        Some(PaneDirection::Left)
    } else if key.pane_down {
        Some(PaneDirection::Down)
    } else if key.pane_up {
        Some(PaneDirection::Up)
    } else if key.pane_right {
        Some(PaneDirection::Right)
    } else {
        None
    }
}

/// The prefix binding a key names in navigate mode: its action unless that
/// focuses a pane, else its custom command, else its indexed action.
pub open spec fn prefix_binding(key: NavigateKeyView) -> Option<BindingMatchView> {
    match key.action {
        Some(a) if !(a matches BoundAction::Shell(ShellAction::FocusPane(_))) => Some(BindingMatchView::Action(a)),
        _ => match key.command {
            Some((label, action)) => Some(BindingMatchView::Command { label, action }),
            None => match key.indexed {
                Some(a) => Some(BindingMatchView::Action(a)),
                None => None,
            },
        },
    }
}

/// The key as plain values.
pub ghost struct NavigateKeyView {
    pub leaves: bool,
    pub workspace_up: bool,
    pub workspace_down: bool,
    pub digit: Option<usize>,
    pub plain: Option<PlainKey>,
    pub pane_left: bool,
    pub pane_down: bool,
    pub pane_up: bool,
    pub pane_right: bool,
    pub action: Option<BoundAction>,
    pub command: Option<(Seq<char>, CustomCommandAction)>,
    pub indexed: Option<BoundAction>,
}

impl NavigateKey {
    pub open spec fn view(&self) -> NavigateKeyView {
        NavigateKeyView {
            leaves: self.leaves,
            workspace_up: self.workspace_up,
            workspace_down: self.workspace_down,
            digit: self.digit,
            plain: self.plain,
            pane_left: self.pane_left,
            pane_down: self.pane_down,
            pane_up: self.pane_up,
            pane_right: self.pane_right,
            action: self.action,
            command: match self.command {
                Some((label, action)) => Some((label@, action)),
                None => None,
            },
            indexed: self.indexed,
        }
    }
}

/// The workspace navigate mode selects after moving `delta` rows, the
/// selection unchanged when there is no snapshot or no row.
pub open spec fn moved_selection(
    snapshot: Option<ClientShellSnapshot>,
    collapsed: Seq<Seq<char>>,
    current: Option<Seq<char>>,
    delta: int,
) -> Option<Seq<char>> {
    match snapshot {
        None => current,
        Some(snap) => match navigate_target(snap, collapsed, current, delta) {
            Some(id) => Some(id),
            None => current,
        },
    }
}

/// What a key does in navigate mode: the state after it, the effect asked of
/// the caller and whether the shell repaints. Leaving (Escape or the prefix)
/// goes back to the terminal; the workspace bindings move the selection; a digit
/// switches to that workspace; Enter focuses the selected workspace; Tab and
/// Backtab cycle panes; Left, Right and the pane bindings focus a neighbouring
/// pane and stay in navigate mode; any other prefix binding is taken and leaves
/// navigate mode; a key with no meaning does nothing.
pub open spec fn spec_route_navigate_key(
    s: BindingStateView,
    config: BindingConfig,
    snapshot: Option<ClientShellSnapshot>,
    surface: Option<PaneSurfaceFrame>,
    commands: Seq<ClientShellCommand>,
    collapsed: Seq<Seq<char>>,
    agents: Seq<Seq<char>>,
    previous_pane: Option<Seq<char>>,
    key: NavigateKeyView,
) -> (BindingStateView, EffectView, bool) {
    let nav = |b: BindingMatchView, preserve: bool|
        spec_navigate_binding(s, config, snapshot, surface, commands, collapsed, agents, previous_pane, b, preserve);
    if key.leaves {
        (left_navigate(s), EffectView::Nothing, true)
    } else if key.workspace_up {
        (
            BindingStateView {
                navigate_workspace_id: moved_selection(snapshot, collapsed, s.navigate_workspace_id, -1),
                ..s
            },
            EffectView::Nothing,
            true,
        )
    } else if key.workspace_down {
        (
            BindingStateView {
                navigate_workspace_id: moved_selection(snapshot, collapsed, s.navigate_workspace_id, 1),
                ..s
            },
            EffectView::Nothing,
            true,
        )
    } else if key.digit is Some {
        let (s1, e) = spec_record_binding(
            left_navigate(s),
            config,
            snapshot,
            commands,
            collapsed,
            agents,
            previous_pane,
            BindingMatchView::Action(BoundAction::Shell(ShellAction::SwitchWorkspace(key.digit->0))),
        );
        (s1, e, true)
    } else if key.plain == Some(PlainKey::Enter) {
        (
            left_navigate(s),
            match s.navigate_workspace_id {
                Some(w) => EffectView::Endpoint(MethodView::WorkspaceFocus { workspace_id: w }),
                None => EffectView::Nothing,
            },
            true,
        )
    } else {
        let chosen: Option<(BindingMatchView, bool)> = match key.plain {
            Some(PlainKey::Tab) => Some((BindingMatchView::Action(BoundAction::Shell(ShellAction::CyclePaneNext)), false)),
            Some(PlainKey::BackTab) => Some(
                (BindingMatchView::Action(BoundAction::Shell(ShellAction::CyclePanePrevious)), false),
            ),
            Some(PlainKey::Left) => Some(
                (BindingMatchView::Action(BoundAction::Shell(ShellAction::FocusPane(PaneDirection::Left))), true),
            ),
            Some(PlainKey::Right) => Some(
                (BindingMatchView::Action(BoundAction::Shell(ShellAction::FocusPane(PaneDirection::Right))), true),
            ),
            _ => match pane_binding(key) {
                Some(d) => Some((BindingMatchView::Action(BoundAction::Shell(ShellAction::FocusPane(d))), true)),
                None => match prefix_binding(key) {
                    Some(b) => Some((b, false)),
                    None => None,
                },
            },
        };
        match chosen {
            Some((b, preserve)) => {
                let (s1, e) = nav(b, preserve);
                (s1, e, true)
            },
            None => (s, EffectView::Nothing, false),
        }
    }
}

fn navigate_binding(
    state: &mut BindingState,
    config: BindingConfig,
    snapshot: &Option<ClientShellSnapshot>,
    surface: &Option<PaneSurfaceFrame>,
    commands: &[ClientShellCommand],
    collapsed_groups: &[String],
    agent_pane_ids: &[String],
    previous_pane_id: &Option<String>,
    binding: &KeybindMatch,
    preserve: bool,
) -> (effect: BindingEffect)
    ensures
        (final(state)@, effect@) == spec_navigate_binding(
            old(state)@,
            config,
            *snapshot,
            *surface,
            commands@,
            names_view(collapsed_groups@),
            names_view(agent_pane_ids@),
            opt_view(*previous_pane_id),
            binding@,
            preserve,
        ),
{
    let cycle: Option<bool> = match binding {
        KeybindMatch::Action(BoundAction::Shell(ShellAction::CyclePaneNext)) => Some(false),
        KeybindMatch::Action(BoundAction::Shell(ShellAction::CyclePanePrevious)) => Some(true),
        _ => None,
    };
    let effect = match cycle {
        Some(reverse) => match (snapshot, surface) {
            (Some(snap), Some(sf)) => match cycle_pane(snap, sf, reverse) {
                Some(pane_id) => BindingEffect::Endpoint(ShellMethod::PaneFocus { pane_id }),
                None => BindingEffect::Nothing,
            },
            _ => BindingEffect::Nothing,
        },
        None => {
            if !preserve {
                state.mode = ShellMode::Terminal;
                state.navigate_workspace_id = None;
            }
            record_binding(
                state,
                config,
                snapshot,
                commands,
                collapsed_groups,
                agent_pane_ids,
                previous_pane_id,
                binding,
            )
        },
    };
    if !preserve {
        if state.mode == ShellMode::Navigate {
            state.mode = ShellMode::Terminal;
        }
        state.navigate_workspace_id = None;
    }
    effect
}

/// Routes a key pressed in navigate mode as `spec_route_navigate_key` says;
/// returns the effect and whether the shell repaints. The sidebar's rows must
/// be fewer than `isize::MAX`, as any list in memory is.
pub fn route_navigate_key(
    state: &mut BindingState,
    config: BindingConfig,
    snapshot: &Option<ClientShellSnapshot>,
    surface: &Option<PaneSurfaceFrame>,
    commands: &[ClientShellCommand],
    collapsed_groups: &[String],
    agent_pane_ids: &[String],
    previous_pane_id: &Option<String>,
    key: &NavigateKey,
) -> (r: (BindingEffect, bool))
    requires
        snapshot matches Some(snap) ==> spec_workspace_entries(snap.workspaces@, names_view(collapsed_groups@)).len()
            < isize::MAX,
    ensures
        ({
            let (st, e, repaint) = spec_route_navigate_key(
                old(state)@,
                config,
                *snapshot,
                *surface,
                commands@,
                names_view(collapsed_groups@),
                names_view(agent_pane_ids@),
                opt_view(*previous_pane_id),
                key@,
            );
            final(state)@ == st && r.0@ == e && r.1 == repaint
        }),
{
    if key.leaves {
        state.mode = ShellMode::Terminal;
        state.navigate_workspace_id = None;
        return (BindingEffect::Nothing, true);
    }
    if key.workspace_up || key.workspace_down {
        let delta: isize = if key.workspace_up { -1 } else { 1 };
        if let Some(snap) = snapshot {
            move_navigate_workspace(snap, collapsed_groups, &mut state.navigate_workspace_id, delta);
        }
        return (BindingEffect::Nothing, true);
    }
    if let Some(index) = key.digit {
        state.mode = ShellMode::Terminal;
        state.navigate_workspace_id = None;
        let effect = record_binding(
            state,
            config,
            snapshot,
            commands,
            collapsed_groups,
            agent_pane_ids,
            previous_pane_id,
            &KeybindMatch::Action(BoundAction::Shell(ShellAction::SwitchWorkspace(index))),
        );
        return (effect, true);
    }
    if key.plain == Some(PlainKey::Enter) {
        let selected = clone_opt(&state.navigate_workspace_id);
        state.mode = ShellMode::Terminal;
        state.navigate_workspace_id = None;
        let effect = match selected {
            Some(workspace_id) => BindingEffect::Endpoint(ShellMethod::WorkspaceFocus { workspace_id }),
            None => BindingEffect::Nothing,
        };
        return (effect, true);
    }
    let chosen: Option<(KeybindMatch, bool)> = match key.plain {
        Some(PlainKey::Tab) => Some((KeybindMatch::Action(BoundAction::Shell(ShellAction::CyclePaneNext)), false)),
        Some(PlainKey::BackTab) => Some((KeybindMatch::Action(BoundAction::Shell(ShellAction::CyclePanePrevious)), false)),
        Some(PlainKey::Left) => Some(
            (KeybindMatch::Action(BoundAction::Shell(ShellAction::FocusPane(PaneDirection::Left))), true),
        ),
        Some(PlainKey::Right) => Some(
            (KeybindMatch::Action(BoundAction::Shell(ShellAction::FocusPane(PaneDirection::Right))), true),
        ),
        _ => {
            let pane = if key.pane_left {
                Some(PaneDirection::Left)
            } else if key.pane_down {
                Some(PaneDirection::Down)
            } else if key.pane_up {
                Some(PaneDirection::Up)
            } else if key.pane_right {
                Some(PaneDirection::Right)
            } else {
                None
            };
            match pane {
                Some(d) => Some((KeybindMatch::Action(BoundAction::Shell(ShellAction::FocusPane(d))), true)),
                None => {
                    let focus_action = match key.action {
                        Some(BoundAction::Shell(ShellAction::FocusPane(_))) => true,
                        _ => false,
                    };
                    match key.action {
                        Some(a) if !focus_action => Some((KeybindMatch::Action(a), false)),
                        _ => match &key.command {
                            Some((label, action)) => Some(
                                (KeybindMatch::Command { label: label.clone(), action: *action }, false),
                            ),
                            None => match key.indexed {
                                Some(a) => Some((KeybindMatch::Action(a), false)),
                                None => None,
                            },
                        },
                    }
                },
            }
        },
    };
    match chosen {
        Some((binding, preserve)) => {
            let effect = navigate_binding(
                state,
                config,
                snapshot,
                surface,
                commands,
                collapsed_groups,
                agent_pane_ids,
                previous_pane_id,
                &binding,
                preserve,
            );
            (effect, true)
        },
        None => (BindingEffect::Nothing, false),
    }
}


/// What a key does while the close confirmation for workspace `w` is open:
/// Enter closes the overlay and asks to close the workspace with its group;
/// Esc closes the overlay and goes back to navigate mode on the focused
/// workspace; other keys do nothing. The state after it, the effect, and
/// whether the overlay closes.
pub open spec fn spec_confirm_close_key(
    s: BindingStateView,
    snapshot: Option<ClientShellSnapshot>,
    w: Seq<char>,
    code: OverlayKeyCode,
) -> (BindingStateView, EffectView, bool) {
    if code == OverlayKeyCode::Enter {
        (s, EffectView::CloseWorkspace(w), true)
    } else if code == OverlayKeyCode::Esc {
        (
            BindingStateView {
                mode: ShellMode::Navigate,
                navigate_workspace_id: match snapshot {
                    Some(snap) => opt_view(snap.focused_workspace_id),
                    None => None,
                },
                ..s
            },
            EffectView::Repaint,
            true,
        )
    } else {
        (s, EffectView::Nothing, false)
    }
}

/// Routes a key to the open close confirmation for `workspace_id`, as
/// `spec_confirm_close_key` says.
pub fn route_confirm_close_key(
    state: &mut BindingState,
    snapshot: &Option<ClientShellSnapshot>,
    workspace_id: &str,
    code: OverlayKeyCode,
) -> (r: (BindingEffect, bool))
    ensures
        ({
            let (st, e, closes) = spec_confirm_close_key(old(state)@, *snapshot, workspace_id@, code);
            final(state)@ == st && r.0@ == e && r.1 == closes
        }),
{
    if code == OverlayKeyCode::Enter {
        return (BindingEffect::CloseWorkspace(workspace_id.to_owned()), true);
    }
    if code == OverlayKeyCode::Esc {
        state.mode = ShellMode::Navigate;
        state.navigate_workspace_id = match snapshot {
            Some(snap) => clone_opt(&snap.focused_workspace_id),
            None => None,
        };
        return (BindingEffect::Repaint, true);
    }
    (BindingEffect::Nothing, false)
}


/// Toggling the sidebar twice leaves it as it was, now marked as the user's
/// choice, and asks the caller to redraw each time.
pub proof fn lemma_sidebar_toggle_round_trip(
    s: BindingStateView,
    config: BindingConfig,
    snapshot: Option<ClientShellSnapshot>,
    commands: Seq<ClientShellCommand>,
    collapsed: Seq<Seq<char>>,
    agents: Seq<Seq<char>>,
    previous_pane: Option<Seq<char>>,
)
    ensures
        ({
            let b = BindingMatchView::Action(BoundAction::ToggleSidebar);
            let (s1, e1) = spec_record_binding(s, config, snapshot, commands, collapsed, agents, previous_pane, b);
            let (s2, e2) = spec_record_binding(s1, config, snapshot, commands, collapsed, agents, previous_pane, b);
            &&& s2 == BindingStateView { sidebar_collapsed_manual: true, ..s }
            &&& e1 == EffectView::SidebarToggled
            &&& e2 == EffectView::SidebarToggled
        }),
{
}

} // verus!
