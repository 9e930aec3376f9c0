//! The endpoint request a keybound action of the client shell asks for.
use vstd::prelude::*;

use crate::sidebar::{lemma_entries_name_known_workspaces, spec_workspace_entries, workspace_entries};
use crate::snapshot::{opt_view, ClientShellPane, ClientShellSnapshot, ClientShellTab};
use crate::text::{names_view, str_equal};
use crate::workspace_drop::{first_entry, first_entry_showing, has_entry};

verus! {

/// A direction between panes.
#[derive(Clone, Copy, Debug, PartialEq, Eq, Structural)]
pub enum PaneDirection {
    Left,
    Down,
    Up,
    Right,
}

/// Where a split puts the new pane.
#[derive(Clone, Copy, Debug, PartialEq, Eq, Structural)]
pub enum SplitDirection {
    Right,
    Down,
}

/// A keybound action of the shell, as far as it reaches the endpoint.
#[derive(Clone, Copy, Debug, PartialEq, Eq, Structural)]
pub enum ShellAction {
    FocusAgent(usize),
    PreviousAgent,
    NextAgent,
    SwitchWorkspace(usize),
    PreviousWorkspace,
    NextWorkspace,
    SwitchTab(usize),
    PreviousTab,
    NextTab,
    MoveTabPrevious,
    MoveTabNext,
    NewTab,
    FocusPane(PaneDirection),
    SwapPane(PaneDirection),
    SplitVertical,
    SplitHorizontal,
    CloseTab,
    ClosePane,
    CyclePaneNext,
    CyclePanePrevious,
    LastPane,
    Zoom,
    EditScrollback,
    ResizePane(PaneDirection),
    /// An action the shell handles itself.
    Local,
}

/// A request to the endpoint. A new tab is created focused with no name or
/// directory of its own; a split is focused with the default ratio; a zoom
/// toggles; a resize uses the default amount.
#[derive(Clone, Debug)]
pub enum ShellMethod {
    PaneFocus { pane_id: String },
    WorkspaceFocus { workspace_id: String },
    TabFocus { tab_id: String },
    TabMove { tab_id: String, insert_index: usize },
    TabCreate { workspace_id: String },
    PaneFocusDirection { pane_id: Option<String>, direction: PaneDirection },
    PaneSwap { pane_id: Option<String>, direction: PaneDirection },
    PaneSplit { workspace_id: String, target_pane_id: Option<String>, direction: SplitDirection },
    TabClose { tab_id: String },
    PaneClose { pane_id: String },
    PaneZoom { pane_id: Option<String> },
    PaneEditScrollback { pane_id: String },
    PaneResize { pane_id: Option<String>, direction: PaneDirection },
}

/// A request as plain values.
pub ghost enum MethodView {
    PaneFocus { pane_id: Seq<char> },
    WorkspaceFocus { workspace_id: Seq<char> },
    TabFocus { tab_id: Seq<char> },
    TabMove { tab_id: Seq<char>, insert_index: int },
    TabCreate { workspace_id: Seq<char> },
    PaneFocusDirection { pane_id: Option<Seq<char>>, direction: PaneDirection },
    PaneSwap { pane_id: Option<Seq<char>>, direction: PaneDirection },
    PaneSplit { workspace_id: Seq<char>, target_pane_id: Option<Seq<char>>, direction: SplitDirection },
    TabClose { tab_id: Seq<char> },
    PaneClose { pane_id: Seq<char> },
    PaneZoom { pane_id: Option<Seq<char>> },
    PaneEditScrollback { pane_id: Seq<char> },
    PaneResize { pane_id: Option<Seq<char>>, direction: PaneDirection },
}

impl ShellMethod {
    pub open spec fn view(self) -> MethodView {
        match self {
            ShellMethod::PaneFocus { pane_id } => MethodView::PaneFocus { pane_id: pane_id@ },
            ShellMethod::WorkspaceFocus { workspace_id } => MethodView::WorkspaceFocus { workspace_id: workspace_id@ },
            ShellMethod::TabFocus { tab_id } => MethodView::TabFocus { tab_id: tab_id@ },
            ShellMethod::TabMove { tab_id, insert_index } => MethodView::TabMove {
                tab_id: tab_id@,
                insert_index: insert_index as int,
            },
            ShellMethod::TabCreate { workspace_id } => MethodView::TabCreate { workspace_id: workspace_id@ },
            ShellMethod::PaneFocusDirection { pane_id, direction } => MethodView::PaneFocusDirection {
                pane_id: opt_view(pane_id),
                direction,
            },
            ShellMethod::PaneSwap { pane_id, direction } => MethodView::PaneSwap { pane_id: opt_view(pane_id), direction },
            ShellMethod::PaneSplit { workspace_id, target_pane_id, direction } => MethodView::PaneSplit {
                workspace_id: workspace_id@,
                target_pane_id: opt_view(target_pane_id),
                direction,
            },
            ShellMethod::TabClose { tab_id } => MethodView::TabClose { tab_id: tab_id@ },
            ShellMethod::PaneClose { pane_id } => MethodView::PaneClose { pane_id: pane_id@ },
            ShellMethod::PaneZoom { pane_id } => MethodView::PaneZoom { pane_id: opt_view(pane_id) },
            ShellMethod::PaneEditScrollback { pane_id } => MethodView::PaneEditScrollback { pane_id: pane_id@ },
            ShellMethod::PaneResize { pane_id, direction } => MethodView::PaneResize {
                pane_id: opt_view(pane_id),
                direction,
            },
        }
    }
}

/// The ids of the tabs of workspace `w`, in order.
pub open spec fn tab_ids_of(tabs: Seq<ClientShellTab>, w: Seq<char>) -> Seq<Seq<char>>
    decreases tabs.len(),
{
    if tabs.len() == 0 {
        Seq::empty()
    } else {
        let rest = tab_ids_of(tabs.drop_last(), w);
        if tabs.last().workspace_id@ == w {
            rest.push(tabs.last().tab_id@)
        } else {
            rest
        }
    }
}

/// The ids of the panes of tab `t`, in order.
pub open spec fn pane_ids_of(panes: Seq<ClientShellPane>, t: Seq<char>) -> Seq<Seq<char>>
    decreases panes.len(),
{
    if panes.len() == 0 {
        Seq::empty()
    } else {
        let rest = pane_ids_of(panes.drop_last(), t);
        if panes.last().tab_id@ == t {
            rest.push(panes.last().pane_id@)
        } else {
            rest
        }
    }
}

/// The position of the first `x` in `s`.
pub open spec fn position(s: Seq<Seq<char>>, x: Seq<char>) -> Option<int> {
    s.index_of_first(x)
}

/// One step back through `n` items, wrapping around.
pub open spec fn step_back(current: int, n: int) -> int {
    (current + n - 1) % n
}

/// One step forward through `n` items, wrapping around.
pub open spec fn step_forward(current: int, n: int) -> int {
    (current + 1) % n
}

/// `current` moved one step, back when `back`.
pub open spec fn step(current: int, n: int, back: bool) -> int {
    if back {
        step_back(current, n)
    } else {
        step_forward(current, n)
    }
}

/// Whether some pane of `panes` has id `id`.
pub open spec fn has_pane(panes: Seq<ClientShellPane>, id: Seq<char>) -> bool {
    exists|i: int| 0 <= i < panes.len() && #[trigger] panes[i].pane_id@ == id
}

/// The direction of a directional action.
pub open spec fn focus_target(ids: Seq<Seq<char>>, focused: Option<Seq<char>>) -> int {
    match focused {
        Some(f) => match position(ids, f) {
            Some(p) => p,
            None => 0,
        },
        None => 0,
    }
}

/// The request for `action` in `snapshot`: none without a focused workspace.
/// `agents` are the agent panes in the order the agent panel shows them,
/// `previous_pane` the pane focused before the current one, `prompt_new_tab_name`
/// whether a new tab asks for its name first (the shell then opens a prompt
/// instead).
pub open spec fn spec_method_for_action(
    snapshot: ClientShellSnapshot,
    collapsed: Seq<Seq<char>>,
    agents: Seq<Seq<char>>,
    previous_pane: Option<Seq<char>>,
    prompt_new_tab_name: bool,
    action: ShellAction,
) -> Option<MethodView> {
    let ws = snapshot.workspaces@;
    let focused_tab = opt_view(snapshot.focused_tab_id);
    let focused_pane = opt_view(snapshot.focused_pane_id);
    match snapshot.focused_workspace_id {
        None => None,
        Some(fw) => {
            let w = fw@;
            let tabs = tab_ids_of(snapshot.tabs@, w);
            let entries = spec_workspace_entries(ws, collapsed);
            match action {
                ShellAction::FocusAgent(i) => if i < agents.len() {
                    Some(MethodView::PaneFocus { pane_id: agents[i as int] })
                } else {
                    None
                },
                ShellAction::PreviousAgent | ShellAction::NextAgent => if agents.len() == 0 {
                    None
                } else {
                    let next = step(focus_target(agents, focused_pane), agents.len() as int, action is PreviousAgent);
                    Some(MethodView::PaneFocus { pane_id: agents[next] })
                },
                ShellAction::SwitchWorkspace(i) => if i < entries.len() && entries[i as int].index < ws.len() {
                    Some(MethodView::WorkspaceFocus { workspace_id: ws[entries[i as int].index as int].workspace_id@ })
                } else {
                    None
                },
                ShellAction::PreviousWorkspace | ShellAction::NextWorkspace => if has_entry(ws, entries, w) {
                    let next = step(first_entry(ws, entries, w), entries.len() as int, action is PreviousWorkspace);
                    Some(MethodView::WorkspaceFocus { workspace_id: ws[entries[next].index as int].workspace_id@ })
                } else {
                    None
                },
                ShellAction::SwitchTab(i) => if i < tabs.len() {
                    Some(MethodView::TabFocus { tab_id: tabs[i as int] })
                } else {
                    None
                },
                ShellAction::PreviousTab | ShellAction::NextTab => match focused_tab {
                    None => None,
                    Some(ft) => match position(tabs, ft) {
                        None => None,
                        Some(p) => Some(
                            MethodView::TabFocus { tab_id: tabs[step(p, tabs.len() as int, action is PreviousTab)] },
                        ),
                    },
                },
                ShellAction::MoveTabPrevious | ShellAction::MoveTabNext => if tabs.len() <= 1 {
                    None
                } else {
                    match focused_tab {
                        None => None,
                        Some(ft) => match position(tabs, ft) {
                            None => None,
                            Some(p) => Some(
                                MethodView::TabMove {
                                    tab_id: ft,
                                    insert_index: if action is MoveTabNext {
                                        if p + 1 >= tabs.len() {
                                            0
                                        } else {
                                            p + 2
                                        }
                                    } else if p == 0 {
                                        tabs.len() as int
                                    } else {
                                        p - 1
                                    },
                                },
                            ),
                        },
                    }
                },
                ShellAction::NewTab => if prompt_new_tab_name {
                    None
                } else {
                    Some(MethodView::TabCreate { workspace_id: w })
                },
                ShellAction::FocusPane(d) => Some(MethodView::PaneFocusDirection { pane_id: focused_pane, direction: d }),
                ShellAction::SwapPane(d) => Some(MethodView::PaneSwap { pane_id: focused_pane, direction: d }),
                ShellAction::SplitVertical => Some(
                    MethodView::PaneSplit { workspace_id: w, target_pane_id: focused_pane, direction: SplitDirection::Right },
                ),
                ShellAction::SplitHorizontal => Some(
                    MethodView::PaneSplit { workspace_id: w, target_pane_id: focused_pane, direction: SplitDirection::Down },
                ),
                ShellAction::CloseTab => match focused_tab {
                    Some(t) => Some(MethodView::TabClose { tab_id: t }),
                    None => None,
                },
                ShellAction::ClosePane => match focused_pane {
                    Some(p) => Some(MethodView::PaneClose { pane_id: p }),
                    None => None,
                },
                ShellAction::CyclePaneNext | ShellAction::CyclePanePrevious => match focused_tab {
                    None => None,
                    Some(ft) => {
                        let panes = pane_ids_of(snapshot.panes@, ft);
                        if panes.len() == 0 || focused_pane is None {
                            None
                        } else {
                            let next = step(focus_target(panes, focused_pane), panes.len() as int, action is CyclePanePrevious);
                            Some(MethodView::PaneFocus { pane_id: panes[next] })
                        }
                    },
                },
                ShellAction::LastPane => match previous_pane {
                    None => None,
                    Some(p) => if focused_pane == Some(p) || !has_pane(snapshot.panes@, p) {
                        None
                    } else {
                        Some(MethodView::PaneFocus { pane_id: p })
                    },
                },
                ShellAction::Zoom => Some(MethodView::PaneZoom { pane_id: focused_pane }),
                ShellAction::EditScrollback => match focused_pane {
                    Some(p) => Some(MethodView::PaneEditScrollback { pane_id: p }),
                    None => None,
                },
                ShellAction::ResizePane(d) => Some(MethodView::PaneResize { pane_id: focused_pane, direction: d }),
                ShellAction::Local => None,
            }
        },
    }
}

/// The ids of the tabs of workspace `w`.
fn collect_tab_ids(tabs: &Vec<ClientShellTab>, w: &str) -> (r: Vec<String>)
    ensures
        names_view(r@) == tab_ids_of(tabs@, w@),
{
    let mut out: Vec<String> = Vec::new();
    let mut k: usize = 0;
    while k < tabs.len()
        invariant
            k <= tabs@.len(),
            names_view(out@) == tab_ids_of(tabs@.take(k as int), w@),
        decreases tabs@.len() - k,
    {
        assert(tabs@.take(k + 1).drop_last() =~= tabs@.take(k as int));
        assert(tabs@.take(k + 1).last() == tabs@[k as int]);
        if str_equal(tabs[k].workspace_id.as_str(), w) {
            let ghost before = names_view(out@);
            out.push(tabs[k].tab_id.clone());
            assert(names_view(out@) =~= before.push(tabs@[k as int].tab_id@));
        }
        k = k + 1;
    }
    assert(tabs@.take(tabs@.len() as int) =~= tabs@);
    out
}

/// The ids of the panes of tab `t`.
fn collect_pane_ids(panes: &Vec<ClientShellPane>, t: &str) -> (r: Vec<String>)
    ensures
        names_view(r@) == pane_ids_of(panes@, t@),
{
    let mut out: Vec<String> = Vec::new();
    let mut k: usize = 0;
    while k < panes.len()
        invariant
            k <= panes@.len(),
            names_view(out@) == pane_ids_of(panes@.take(k as int), t@),
        decreases panes@.len() - k,
    {
        assert(panes@.take(k + 1).drop_last() =~= panes@.take(k as int));
        assert(panes@.take(k + 1).last() == panes@[k as int]);
        if str_equal(panes[k].tab_id.as_str(), t) {
            let ghost before = names_view(out@);
            out.push(panes[k].pane_id.clone());
            assert(names_view(out@) =~= before.push(panes@[k as int].pane_id@));
        }
        k = k + 1;
    }
    assert(panes@.take(panes@.len() as int) =~= panes@);
    out
}

/// The position of the first `x` among `names`.
fn position_in(names: &[String], x: &str) -> (r: Option<usize>)
    ensures
        match r {
            Some(p) => position(names_view(names@), x@) == Some(p as int) && p < names@.len(),
            None => position(names_view(names@), x@) is None,
        },
{
    let ghost nv = names_view(names@);
    proof {
        nv.index_of_first_ensures(x@);
    }
    let mut k: usize = 0;
    while k < names.len()
        invariant
            k <= names@.len(),
            nv == names_view(names@),
            forall|j: int| 0 <= j < k ==> nv[j] != x@,
        decreases names@.len() - k,
    {
        if str_equal(names[k].as_str(), x) {
            proof {
                assert(nv[k as int] == x@);
                assert(nv.contains(x@));
                nv.index_of_first_ensures(x@);
                let q = nv.index_of_first(x@)->0;
                if q < k {
                    assert(nv[q] != x@);
                }
                if k < q {
                    assert(nv[k as int] != x@);
                }
            }
            return Some(k);
        }
        k = k + 1;
    }
    proof {
        nv.index_of_first_ensures(x@);
        if nv.contains(x@) {
            let j = choose|j: int| 0 <= j < nv.len() && nv[j] == x@;
            assert(nv[j] != x@);
        }
    }
    None
}

/// One step from `current` through `n` items, back when `back`.
fn step_exec(current: usize, n: usize, back: bool) -> (r: usize)
    requires
        current < n,
    ensures
        r == step(current as int, n as int, back),
        r < n,
{
    if back {
        assert((current + n - 1) % (n as int) == if current == 0 { n - 1 } else { current - 1 }) by (nonlinear_arith)
            requires
                current < n,
        ;
        if current == 0 {
            n - 1
        } else {
            current - 1
        }
    } else {
        assert((current + 1) % (n as int) == if current + 1 == n { 0 } else { current + 1 }) by (nonlinear_arith)
            requires
                current < n,
        ;
        if current + 1 == n {
            0
        } else {
            current + 1
        }
    }
}

/// The first position of `x` among `ids`, or 0.
fn target_in(ids: &[String], focused: &Option<String>) -> (r: usize)
    ensures
        r == focus_target(names_view(ids@), opt_view(*focused)),
        ids@.len() > 0 ==> r < ids@.len(),
{
    match focused {
        Some(f) => match position_in(ids, f.as_str()) {
            Some(p) => p,
            None => 0,
        },
        None => 0,
    }
}

/// The request for `action`, as `spec_method_for_action` says. `agent_pane_ids`
/// are the agent panes in the order the agent panel lists them,
/// `previous_pane_id` the pane focused before the current one.
pub fn endpoint_method_for_action(
    snapshot: &ClientShellSnapshot,
    collapsed_groups: &[String],
    agent_pane_ids: &[String],
    previous_pane_id: &Option<String>,
    prompt_new_tab_name: bool,
    action: ShellAction,
) -> (r: Option<ShellMethod>)
    ensures
        match r {
            Some(m) => spec_method_for_action(
                *snapshot,
                names_view(collapsed_groups@),
                names_view(agent_pane_ids@),
                opt_view(*previous_pane_id),
                prompt_new_tab_name,
                action,
            ) == Some(m.view()),
            None => spec_method_for_action(
                *snapshot,
                names_view(collapsed_groups@),
                names_view(agent_pane_ids@),
                opt_view(*previous_pane_id),
                prompt_new_tab_name,
                action,
            ) is None,
        },
{
    let focused_workspace = match &snapshot.focused_workspace_id {
        Some(w) => w,
        None => return None,
    };
    let focused_tab = &snapshot.focused_tab_id;
    let focused_pane = &snapshot.focused_pane_id;
    let ws = &snapshot.workspaces;
    let ws_len = ws.len();
    match action {
        ShellAction::FocusAgent(i) => {
            if i < agent_pane_ids.len() {
                Some(ShellMethod::PaneFocus { pane_id: agent_pane_ids[i].clone() })
            } else {
                None
            }
        },
        ShellAction::PreviousAgent | ShellAction::NextAgent => {
            if agent_pane_ids.len() == 0 {
                return None;
            }
            let current = target_in(agent_pane_ids, focused_pane);
            let back = match action {
                ShellAction::PreviousAgent => true,
                _ => false,
            };
            let next = step_exec(current, agent_pane_ids.len(), back);
            Some(ShellMethod::PaneFocus { pane_id: agent_pane_ids[next].clone() })
        },
        ShellAction::SwitchWorkspace(i) => {
            let entries = workspace_entries(snapshot, collapsed_groups);
            if i < entries.len() && entries[i].index < ws.len() {
                Some(ShellMethod::WorkspaceFocus { workspace_id: ws[entries[i].index].workspace_id.clone() })
            } else {
                None
            }
        },
        ShellAction::PreviousWorkspace | ShellAction::NextWorkspace => {
            let entries = workspace_entries(snapshot, collapsed_groups);
            proof {
                lemma_entries_name_known_workspaces(ws@, names_view(collapsed_groups@));
            }
            let current = match first_entry_showing(ws, &entries, focused_workspace.as_str()) {
                Some(k) => k,
                None => return None,
            };
            let back = match action {
                ShellAction::PreviousWorkspace => true,
                _ => false,
            };
            let next = step_exec(current, entries.len(), back);
            Some(ShellMethod::WorkspaceFocus { workspace_id: ws[entries[next].index].workspace_id.clone() })
        },
        ShellAction::SwitchTab(i) => {
            let tabs = collect_tab_ids(&snapshot.tabs, focused_workspace.as_str());
            if i < tabs.len() {
                Some(ShellMethod::TabFocus { tab_id: tabs[i].clone() })
            } else {
                None
            }
        },
        ShellAction::PreviousTab | ShellAction::NextTab => {
            let tabs = collect_tab_ids(&snapshot.tabs, focused_workspace.as_str());
            let ft = match focused_tab {
                Some(t) => t,
                None => return None,
            };
            let p = match position_in(tabs.as_slice(), ft.as_str()) {
                Some(p) => p,
                None => return None,
            };
            let back = match action {
                ShellAction::PreviousTab => true,
                _ => false,
            };
            let next = step_exec(p, tabs.len(), back);
            Some(ShellMethod::TabFocus { tab_id: tabs[next].clone() })
        },
        ShellAction::MoveTabPrevious | ShellAction::MoveTabNext => {
            let tabs = collect_tab_ids(&snapshot.tabs, focused_workspace.as_str());
            if tabs.len() <= 1 {
                return None;
            }
            let ft = match focused_tab {
                Some(t) => t,
                None => return None,
            };
            let p = match position_in(tabs.as_slice(), ft.as_str()) {
                Some(p) => p,
                None => return None,
            };
            let insert_index = match action {
                ShellAction::MoveTabNext => if p + 1 >= tabs.len() {
                    0
                } else {
                    p + 2
                },
                _ => if p == 0 {
                    tabs.len()
                } else {
                    p - 1
                },
            };
            Some(ShellMethod::TabMove { tab_id: ft.clone(), insert_index })
        },
        ShellAction::NewTab => {
            if prompt_new_tab_name {
                None
            } else {
                Some(ShellMethod::TabCreate { workspace_id: focused_workspace.clone() })
            }
        },
        ShellAction::FocusPane(d) => Some(ShellMethod::PaneFocusDirection { pane_id: clone_opt(focused_pane), direction: d }),
        ShellAction::SwapPane(d) => Some(ShellMethod::PaneSwap { pane_id: clone_opt(focused_pane), direction: d }),
        ShellAction::SplitVertical => Some(
            ShellMethod::PaneSplit {
                workspace_id: focused_workspace.clone(),
                target_pane_id: clone_opt(focused_pane),
                direction: SplitDirection::Right,
            },
        ),
        ShellAction::SplitHorizontal => Some(
            ShellMethod::PaneSplit {
                workspace_id: focused_workspace.clone(),
                target_pane_id: clone_opt(focused_pane),
                direction: SplitDirection::Down,
            },
        ),
        ShellAction::CloseTab => match focused_tab {
            Some(t) => Some(ShellMethod::TabClose { tab_id: t.clone() }),
            None => None,
        },
        ShellAction::ClosePane => match focused_pane {
            Some(p) => Some(ShellMethod::PaneClose { pane_id: p.clone() }),
            None => None,
        },
        ShellAction::CyclePaneNext | ShellAction::CyclePanePrevious => {
            let ft = match focused_tab {
                Some(t) => t,
                None => return None,
            };
            let panes = collect_pane_ids(&snapshot.panes, ft.as_str());
            if panes.len() == 0 {
                return None;
            }
            if focused_pane.is_none() {
                return None;
            }
            let current = target_in(panes.as_slice(), focused_pane);
            let back = match action {
                ShellAction::CyclePanePrevious => true,
                _ => false,
            };
            let next = step_exec(current, panes.len(), back);
            Some(ShellMethod::PaneFocus { pane_id: panes[next].clone() })
        },
        ShellAction::LastPane => {
            let p = match previous_pane_id {
                Some(p) => p,
                None => return None,
            };
            let same = match focused_pane {
                Some(f) => str_equal(f.as_str(), p.as_str()),
                None => false,
            };
            if same || !pane_exists(&snapshot.panes, p.as_str()) {
                None
            } else {
                Some(ShellMethod::PaneFocus { pane_id: p.clone() })
            }
        },
        ShellAction::Zoom => Some(ShellMethod::PaneZoom { pane_id: clone_opt(focused_pane) }),
        ShellAction::EditScrollback => match focused_pane {
            Some(p) => Some(ShellMethod::PaneEditScrollback { pane_id: p.clone() }),
            None => None,
        },
        ShellAction::ResizePane(d) => Some(ShellMethod::PaneResize { pane_id: clone_opt(focused_pane), direction: d }),
        ShellAction::Local => None,
    }
}

/// A copy of `o`.
pub(crate) fn clone_opt(o: &Option<String>) -> (r: Option<String>)
    ensures
        opt_view(r) == opt_view(*o),
{
    match o {
        Some(v) => Some(v.clone()),
        None => None,
    }
}

/// Whether some pane of `panes` has id `id`.
fn pane_exists(panes: &Vec<ClientShellPane>, id: &str) -> (r: bool)
    ensures
        r == has_pane(panes@, id@),
{
    let mut k: usize = 0;
    while k < panes.len()
        invariant
            k <= panes@.len(),
            forall|j: int| 0 <= j < k ==> panes@[j].pane_id@ != id@,
        decreases panes@.len() - k,
    {
        if str_equal(panes[k].pane_id.as_str(), id) {
            return true;
        }
        k = k + 1;
    }
    false
}

} // verus!
