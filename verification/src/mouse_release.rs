//! What dragging with the left mouse button and releasing it do to the shell's
//! chrome: a press on a workspace or a tab becomes a drag once the pointer
//! moves, a drag follows the pointer, and the release ends the drag (a tab, a
//! workspace, a divider, a scrollbar) or, without one, counts the press as a
//! click. The wheel over the tab bar steps through the tabs and over the
//! sidebar's lists scrolls them. A right click goes to a pane that asks for it,
//! or opens the context menu of what it hit. A gesture a pane took keeps the
//! events of its button until that button is released.
use vstd::prelude::*;

use crate::geometry::{contains, spec_contains, Rect};
use crate::copy_mode::PaneHit;
use crate::snapshot::{opt_view, ClientShellPane, ClientShellSnapshot};
use crate::tab_drop::{position_of_tab, tab_count, tab_drop_index, tab_drop_index_at, tab_position, count_tabs};
use crate::text::names_view;
use crate::workspace_drop::{slot_view, workspace_drop_target, workspace_drop_target_at, WorkspaceHit};
use crate::workspace_move::{
    first_with_id, is_first_id, is_linked, linked, workspace_move, workspace_move_method, WorkspaceMoveMethod,
};

verus! {

/// A drag of the shell's chrome in progress.
#[derive(Debug)]
pub enum ChromeDrag {
    /// A tab of `workspace_id` being moved, with the index it would land at.
    Tab { tab_id: String, workspace_id: String, insert_index: Option<usize> },
    /// A workspace being moved, with the workspace it would land before (none:
    /// the end) and the row of the drop marker.
    Workspace { source_workspace_id: String, target: Option<(Option<String>, u16)> },
    /// A split divider being dragged. Its ratio is a floating-point value the
    /// caller keeps under this handle.
    PaneSplit(u64),
    SidebarWidth,
    SidebarSection,
    WorkspaceScrollbar { grab_row_offset: u16 },
    AgentScrollbar { grab_row_offset: u16 },
}

/// A press on a sidebar workspace that has not become a drag.
#[derive(Debug)]
pub struct WorkspacePress {
    pub workspace_id: String,
    pub start_column: u16,
    pub start_row: u16,
}

/// A press on a tab that has not become a drag.
#[derive(Debug)]
pub struct TabPress {
    pub tab_id: String,
    pub workspace_id: String,
    pub start_column: u16,
    pub start_row: u16,
}

/// The drag and the presses the pointer holds.
#[derive(Debug)]
pub struct PressState {
    pub chrome_drag: Option<ChromeDrag>,
    pub workspace_press: Option<WorkspacePress>,
    pub tab_press: Option<TabPress>,
}

/// What releasing the left button asks of the caller: `TabMove` sends the move
/// and repaints; `TabDropRejected` and `WorkspaceDropRejected` only repaint;
/// `WorkspaceMove` sends the move and repaints; `SplitReleased` hands the
/// divider drag back to the caller, which sends its last ratio if it changed;
/// `PersistChrome` saves the sidebar's width and split; `FocusWorkspace` and
/// `FocusTab` focus what was clicked; `Nothing` does nothing; `NotReleased`
/// means the release ended nothing and goes on to the other handlers.
#[derive(Debug)]
pub enum ReleaseEffect {
    TabMove { tab_id: String, insert_index: usize },
    TabDropRejected,
    WorkspaceMove(WorkspaceMoveMethod),
    WorkspaceDropRejected,
    SplitReleased(u64),
    PersistChrome,
    Nothing,
    FocusWorkspace(String),
    FocusTab(String),
    NotReleased,
}

/// Where tab `tab` of workspace `w` dropped at `point` lands: the drop index
/// when `w` is the focused workspace, has that tab, and the index is at most its
/// number of tabs; none otherwise (or without a snapshot).
pub open spec fn tab_drop_target(
    snapshot: Option<ClientShellSnapshot>,
    hits: Seq<(Rect, String)>,
    left: Rect,
    right: Rect,
    point: (u16, u16),
    tab: Seq<char>,
    w: Seq<char>,
) -> Option<int> {
    match snapshot {
        None => None,
        Some(s) => if opt_view(s.focused_workspace_id) == Some(w) && tab_position(s.tabs@, w, tab) is Some {
            match tab_drop_index(s, hits, left, right, point) {
                Some(i) => if i <= tab_count(s.tabs@, w) {
                    Some(i)
                } else {
                    None
                },
                None => None,
            }
        } else {
            None
        },
    }
}

/// The move a workspace dropped before `before` asks for (none without a
/// snapshot).
pub open spec fn workspace_drop_move(
    snapshot: Option<ClientShellSnapshot>,
    source: Seq<char>,
    before: Option<Seq<char>>,
) -> Option<crate::workspace_move::WorkspaceMoveView> {
    match snapshot {
        Some(s) => workspace_move(s.workspaces@, source, before),
        None => None,
    }
}

/// Whether the drag and both presses are gone.
pub open spec fn cleared(s: PressState) -> bool {
    s.chrome_drag is None && s.workspace_press is None && s.tab_press is None
}

/// Ends what the pointer holds when the left button is released at `point`.
/// A drag ends first (and forgets both presses): a tab lands where
/// `tab_drop_target` says, a workspace moves as `workspace_drop_move` says, a
/// divider is handed back, the sidebar's geometry is saved. Otherwise a press
/// on a workspace, then one on a tab, is a click that focuses it. `tab_hits`
/// are the drawn tabs, `tab_scroll_left` and `tab_scroll_right` the tab bar's
/// scroll arrows.
pub fn release_left_button(
    state: &mut PressState,
    snapshot: &Option<ClientShellSnapshot>,
    tab_hits: &[(Rect, String)],
    tab_scroll_left: Rect,
    tab_scroll_right: Rect,
    point: (u16, u16),
) -> (r: ReleaseEffect)
    requires
        forall|k: int|
            0 <= k < tab_hits@.len() ==> (#[trigger] tab_hits@[k]).0.x + tab_hits@[k].0.width <= u16::MAX,
    ensures
        match old(state).chrome_drag {
            Some(ChromeDrag::Tab { tab_id, workspace_id, .. }) => cleared(*final(state)) && match tab_drop_target(
                *snapshot,
                tab_hits@,
                tab_scroll_left,
                tab_scroll_right,
                point,
                tab_id@,
                workspace_id@,
            ) {
                Some(i) => r matches ReleaseEffect::TabMove { tab_id: t, insert_index } && t@ == tab_id@ && insert_index
                    == i,
                None => r is TabDropRejected,
            },
            Some(ChromeDrag::Workspace { source_workspace_id, target }) => cleared(*final(state)) && match target {
                Some((before, _)) => match workspace_drop_move(*snapshot, source_workspace_id@, opt_view(before)) {
                    Some(m) => r matches ReleaseEffect::WorkspaceMove(mm) && mm.view() == m,
                    None => r is WorkspaceDropRejected,
                },
                None => r is WorkspaceDropRejected,
            },
            Some(ChromeDrag::PaneSplit(h)) => cleared(*final(state)) && r == ReleaseEffect::SplitReleased(h),
            Some(ChromeDrag::SidebarWidth) | Some(ChromeDrag::SidebarSection) => cleared(*final(state))
                && r is PersistChrome,
            Some(_) => cleared(*final(state)) && r is Nothing,
            None => match old(state).workspace_press {
                Some(p) => {
                    &&& final(state).chrome_drag is None
                    &&& final(state).workspace_press is None
                    &&& final(state).tab_press == old(state).tab_press
                    &&& r matches ReleaseEffect::FocusWorkspace(w) && w@ == p.workspace_id@
                },
                None => match old(state).tab_press {
                    Some(p) => {
                        &&& cleared(*final(state))
                        &&& r matches ReleaseEffect::FocusTab(t) && t@ == p.tab_id@
                    },
                    None => *final(state) == *old(state) && r is NotReleased,
                },
            },
        },
{
    match state.chrome_drag.take() {
        Some(drag) => {
            state.workspace_press = None;
            state.tab_press = None;
            match drag {
                ChromeDrag::Tab { tab_id, workspace_id, .. } => {
                    let target: Option<usize> = match snapshot {
                        None => None,
                        Some(s) => {
                            let focused = match &s.focused_workspace_id {
                                Some(f) => crate::text::str_equal(f.as_str(), workspace_id.as_str()),
                                None => false,
                            };
                            if focused && position_of_tab(&s.tabs, workspace_id.as_str(), tab_id.as_str()).is_some() {
                                match tab_drop_index_at(s, tab_hits, tab_scroll_left, tab_scroll_right, point) {
                                    Some(i) => if i <= count_tabs(&s.tabs, workspace_id.as_str()) {
                                        Some(i)
                                    } else {
                                        None
                                    },
                                    None => None,
                                }
                            } else {
                                None
                            }
                        },
                    };
                    match target {
                        Some(insert_index) => ReleaseEffect::TabMove { tab_id, insert_index },
                        None => ReleaseEffect::TabDropRejected,
                    }
                },
                ChromeDrag::Workspace { source_workspace_id, target } => match (target, snapshot) {
                    (Some((before, _)), Some(s)) => {
                        let before_ref: Option<&str> = match &before {
                            Some(b) => Some(b.as_str()),
                            None => None,
                        };
                        match workspace_move_method(s, source_workspace_id.as_str(), before_ref) {
                            Some(m) => ReleaseEffect::WorkspaceMove(m),
                            None => ReleaseEffect::WorkspaceDropRejected,
                        }
                    },
                    _ => ReleaseEffect::WorkspaceDropRejected,
                },
                ChromeDrag::PaneSplit(h) => ReleaseEffect::SplitReleased(h),
                ChromeDrag::SidebarWidth | ChromeDrag::SidebarSection => ReleaseEffect::PersistChrome,
                _ => ReleaseEffect::Nothing,
            }
        },
        None => {
            if let Some(press) = state.workspace_press.take() {
                return ReleaseEffect::FocusWorkspace(press.workspace_id);
            }
            match state.tab_press.take() {
                Some(press) => ReleaseEffect::FocusTab(press.tab_id),
                None => ReleaseEffect::NotReleased,
            }
        },
    }
}


/// What a drag step asks of the caller: `Repaint` repaints; `Delegate` hands the
/// drag (a divider, the sidebar's edge or split, a scrollbar) to the caller;
/// `Nothing` does nothing; `NotDragged` means the pointer holds nothing and the
/// event goes on to the other handlers.
#[derive(Clone, Copy, Debug, PartialEq, Eq, Structural)]
pub enum DragEffect {
    Repaint,
    Delegate,
    Nothing,
    NotDragged,
}

/// The drawn chrome a drag is measured against.
#[derive(Debug)]
pub struct DragHits {
    /// The drawn tabs with their ids, and the tab bar's scroll arrows.
    pub tabs: Vec<(Rect, String)>,
    pub tab_scroll_left: Rect,
    pub tab_scroll_right: Rect,
    /// The drawn workspace rows, the list's body and the new-workspace row.
    pub workspaces: Vec<WorkspaceHit>,
    pub workspace_body: Rect,
    pub new_workspace: Rect,
}

/// Where a tab dropped at `point` would land (none without a snapshot).
pub open spec fn drag_tab_index(snapshot: Option<ClientShellSnapshot>, hits: DragHits, point: (u16, u16)) -> Option<int> {
    match snapshot {
        Some(s) => tab_drop_index(s, hits.tabs@, hits.tab_scroll_left, hits.tab_scroll_right, point),
        None => None,
    }
}

/// Where a workspace dropped at `point` would land (none without a snapshot).
pub open spec fn drag_workspace_slot(
    snapshot: Option<ClientShellSnapshot>,
    collapsed: Seq<Seq<char>>,
    hits: DragHits,
    point: (u16, u16),
) -> Option<(Option<Seq<char>>, u16)> {
    match snapshot {
        Some(s) => workspace_drop_target(
            s.workspaces@,
            collapsed,
            hits.workspaces@,
            hits.workspace_body,
            hits.new_workspace,
            point,
        ),
        None => None,
    }
}

/// Whether workspace `id` may be dragged: the snapshot has it and it is not a
/// linked worktree, which moves only with its main checkout.
pub open spec fn draggable(snapshot: Option<ClientShellSnapshot>, id: Seq<char>) -> bool {
    match snapshot {
        Some(s) => exists|i: int| #[trigger] is_first_id(s.workspaces@, id, i) && !linked(s.workspaces@[i]),
        None => false,
    }
}

/// `a` as the matching optional drop index.
pub open spec fn index_view(a: Option<usize>) -> Option<int> {
    match a {
        Some(i) => Some(i as int),
        None => None,
    }
}

/// `a` as the matching optional drop slot.
pub open spec fn slot_opt_view(a: Option<(Option<String>, u16)>) -> Option<(Option<Seq<char>>, u16)> {
    match a {
        Some(t) => Some(slot_view(t)),
        None => None,
    }
}

fn tab_index_at(snapshot: &Option<ClientShellSnapshot>, hits: &DragHits, point: (u16, u16)) -> (r: Option<usize>)
    requires
        forall|k: int| 0 <= k < hits.tabs@.len() ==> (#[trigger] hits.tabs@[k]).0.x + hits.tabs@[k].0.width <= u16::MAX,
    ensures
        index_view(r) == drag_tab_index(*snapshot, *hits, point),
{
    match snapshot {
        Some(s) => tab_drop_index_at(s, hits.tabs.as_slice(), hits.tab_scroll_left, hits.tab_scroll_right, point),
        None => None,
    }
}

fn workspace_slot_at(
    snapshot: &Option<ClientShellSnapshot>,
    collapsed_groups: &[String],
    hits: &DragHits,
    point: (u16, u16),
) -> (r: Option<(Option<String>, u16)>)
    ensures
        slot_opt_view(r) == drag_workspace_slot(*snapshot, names_view(collapsed_groups@), *hits, point),
{
    match snapshot {
        Some(s) => workspace_drop_target_at(
            s,
            collapsed_groups,
            hits.workspaces.as_slice(),
            hits.workspace_body,
            hits.new_workspace,
            point,
        ),
        None => None,
    }
}

/// Moves the pointer to `point` with the left button held. A tab or workspace
/// drag follows the pointer (the index or slot it would land at) and repaints;
/// other drags are handed to the caller. Without a drag, a press on a
/// workspace that the pointer has left becomes a workspace drag when the
/// workspace may be dragged and there is a slot under the pointer; else a press
/// on a tab that the pointer has left becomes a tab drag when there is an index
/// under the pointer; each repaints when it starts. `collapsed_groups` are the
/// folded worktree groups of the sidebar.
pub fn drag_left_button(
    state: &mut PressState,
    snapshot: &Option<ClientShellSnapshot>,
    collapsed_groups: &[String],
    hits: &DragHits,
    point: (u16, u16),
) -> (r: DragEffect)
    requires
        forall|k: int| 0 <= k < hits.tabs@.len() ==> (#[trigger] hits.tabs@[k]).0.x + hits.tabs@[k].0.width <= u16::MAX,
    ensures
        final(state).workspace_press == old(state).workspace_press,
        final(state).tab_press == old(state).tab_press,
        match old(state).chrome_drag {
            Some(ChromeDrag::Tab { tab_id, workspace_id, .. }) => {
                &&& r == DragEffect::Repaint
                &&& final(state).chrome_drag matches Some(ChromeDrag::Tab { tab_id: t, workspace_id: w, insert_index: i })
                    && t == tab_id && w == workspace_id && index_view(i) == drag_tab_index(*snapshot, *hits, point)
            },
            Some(ChromeDrag::Workspace { source_workspace_id, .. }) => {
                &&& r == DragEffect::Repaint
                &&& final(state).chrome_drag matches Some(ChromeDrag::Workspace { source_workspace_id: src, target })
                    && src == source_workspace_id && slot_opt_view(target) == drag_workspace_slot(
                    *snapshot,
                    names_view(collapsed_groups@),
                    *hits,
                    point,
                )
            },
            Some(_) => r == DragEffect::Delegate && final(state).chrome_drag == old(state).chrome_drag,
            None => match old(state).workspace_press {
                Some(p) => if point != (p.start_column, p.start_row) && draggable(*snapshot, p.workspace_id@)
                    && drag_workspace_slot(*snapshot, names_view(collapsed_groups@), *hits, point) is Some {
                    &&& r == DragEffect::Repaint
                    &&& final(state).chrome_drag matches Some(
                        ChromeDrag::Workspace { source_workspace_id: src, target: Some(t) },
                    ) && src@ == p.workspace_id@ && Some(slot_view(t)) == drag_workspace_slot(
                        *snapshot,
                        names_view(collapsed_groups@),
                        *hits,
                        point,
                    )
                } else {
                    r == DragEffect::Nothing && final(state).chrome_drag is None
                },
                None => match old(state).tab_press {
                    Some(p) => if point != (p.start_column, p.start_row) && drag_tab_index(*snapshot, *hits, point)
                        is Some {
                        &&& r == DragEffect::Repaint
                        &&& final(state).chrome_drag matches Some(
                            ChromeDrag::Tab { tab_id: t, workspace_id: w, insert_index: Some(i) },
                        ) && t@ == p.tab_id@ && w@ == p.workspace_id@ && Some(i as int) == drag_tab_index(
                            *snapshot,
                            *hits,
                            point,
                        )
                    } else {
                        r == DragEffect::Nothing && final(state).chrome_drag is None
                    },
                    None => r == DragEffect::NotDragged && final(state).chrome_drag is None,
                },
            },
        },
{
    match state.chrome_drag.take() {
        Some(ChromeDrag::Tab { tab_id, workspace_id, .. }) => {
            let insert_index = tab_index_at(snapshot, hits, point);
            state.chrome_drag = Some(ChromeDrag::Tab { tab_id, workspace_id, insert_index });
            DragEffect::Repaint
        },
        Some(ChromeDrag::Workspace { source_workspace_id, .. }) => {
            let target = workspace_slot_at(snapshot, collapsed_groups, hits, point);
            state.chrome_drag = Some(ChromeDrag::Workspace { source_workspace_id, target });
            DragEffect::Repaint
        },
        Some(other) => {
            state.chrome_drag = Some(other);
            DragEffect::Delegate
        },
        None => {
            if let Some(press) = &state.workspace_press {
                if point.0 == press.start_column && point.1 == press.start_row {
                    return DragEffect::Nothing;
                }
                let can_drag = match snapshot {
                    Some(s) => match first_with_id(&s.workspaces, press.workspace_id.as_str()) {
                        Some(i) => !is_linked(&s.workspaces[i]),
                        None => false,
                    },
                    None => false,
                };
                proof {
                    if snapshot is Some && draggable(*snapshot, press.workspace_id@) {
                        let ws = snapshot->0.workspaces@;
                        let i = choose|i: int| #[trigger] is_first_id(ws, press.workspace_id@, i) && !linked(ws[i]);
                        assert(is_first_id(ws, press.workspace_id@, i));
                    }
                }
                if !can_drag {
                    return DragEffect::Nothing;
                }
                let source = press.workspace_id.clone();
                return match workspace_slot_at(snapshot, collapsed_groups, hits, point) {
                    Some(t) => {
                        state.chrome_drag = Some(ChromeDrag::Workspace { source_workspace_id: source, target: Some(t) });
                        DragEffect::Repaint
                    },
                    None => DragEffect::Nothing,
                };
            }
            if let Some(press) = &state.tab_press {
                if point.0 == press.start_column && point.1 == press.start_row {
                    return DragEffect::Nothing;
                }
                return match tab_index_at(snapshot, hits, point) {
                    Some(i) => {
                        state.chrome_drag = Some(
                            ChromeDrag::Tab {
                                tab_id: press.tab_id.clone(),
                                workspace_id: press.workspace_id.clone(),
                                insert_index: Some(i),
                            },
                        );
                        DragEffect::Repaint
                    },
                    None => DragEffect::Nothing,
                };
            }
            DragEffect::NotDragged
        },
    }
}


/// The sidebar lists' scroll positions, counted in rows.
#[derive(Debug)]
pub struct WheelState {
    pub agent_scroll: usize,
    pub workspace_scroll: usize,
}

/// The drawn chrome the wheel is measured against.
#[derive(Debug)]
pub struct WheelHits {
    pub tabs: Vec<(Rect, String)>,
    pub tab_scroll_left: Rect,
    pub tab_scroll_right: Rect,
    pub new_tab: Rect,
    pub agent_body: Rect,
    pub agent_max_scroll: usize,
    pub workspace_body: Rect,
    pub workspace_max_scroll: usize,
}

/// What a wheel step asks of the caller: `PreviousTab` and `NextTab` are the
/// bindings to record; `Repaint` repaints; `Nothing` does nothing; `NotHandled`
/// means the step was not over the tab bar or the sidebar's lists and goes on
/// to the other handlers.
#[derive(Clone, Copy, Debug, PartialEq, Eq, Structural)]
pub enum WheelEffect {
    PreviousTab,
    NextTab,
    Repaint,
    Nothing,
    NotHandled,
}

/// Whether `point` is on the tab bar: a drawn tab, a scroll arrow or the
/// new-tab button.
pub open spec fn on_tab_bar(hits: WheelHits, point: (u16, u16)) -> bool {
    ||| exists|k: int| 0 <= k < hits.tabs@.len() && spec_contains(#[trigger] hits.tabs@[k].0, point)
    ||| spec_contains(hits.tab_scroll_left, point)
    ||| spec_contains(hits.tab_scroll_right, point)
    ||| spec_contains(hits.new_tab, point)
}

/// `scroll` one row up (`up`, stopping at 0) or down (stopping at `max`).
pub open spec fn wheel_scroll(scroll: usize, max: usize, up: bool) -> usize {
    if up {
        if scroll == 0 { 0 } else { (scroll - 1) as usize }
    } else {
        let n = if scroll == usize::MAX { usize::MAX } else { (scroll + 1) as usize };
        if n < max { n } else { max }
    }
}

/// What a wheel step (`up` or down) at `point` does: over the tab bar it steps
/// to the previous or next tab; over the agent list, then the workspace list,
/// it scrolls that list one row (no lower than its top, no further than its
/// last scroll position when scrolling down), repainting when it moved.
pub open spec fn spec_wheel(s: WheelState, hits: WheelHits, up: bool, point: (u16, u16)) -> (WheelState, WheelEffect) {
    if on_tab_bar(hits, point) {
        (s, if up { WheelEffect::PreviousTab } else { WheelEffect::NextTab })
    } else if spec_contains(hits.agent_body, point) {
        let next = wheel_scroll(s.agent_scroll, hits.agent_max_scroll, up);
        (WheelState { agent_scroll: next, ..s }, if next != s.agent_scroll { WheelEffect::Repaint } else { WheelEffect::Nothing })
    } else if spec_contains(hits.workspace_body, point) {
        let next = wheel_scroll(s.workspace_scroll, hits.workspace_max_scroll, up);
        (
            WheelState { workspace_scroll: next, ..s },
            if next != s.workspace_scroll { WheelEffect::Repaint } else { WheelEffect::Nothing },
        )
    } else {
        (s, WheelEffect::NotHandled)
    }
}

fn step_scroll(scroll: usize, max: usize, up: bool) -> (r: usize)
    ensures
        r == wheel_scroll(scroll, max, up),
{
    if up {
        scroll.saturating_sub(1)
    } else {
        let n = scroll.saturating_add(1);
        if n < max { n } else { max }
    }
}

fn over_tab_bar(hits: &WheelHits, point: (u16, u16)) -> (r: bool)
    ensures
        r == on_tab_bar(*hits, point),
{
    let mut k: usize = 0;
    while k < hits.tabs.len()
        invariant
            k <= hits.tabs@.len(),
            forall|j: int| 0 <= j < k ==> !spec_contains(#[trigger] hits.tabs@[j].0, point),
        decreases hits.tabs@.len() - k,
    {
        if contains(hits.tabs[k].0, point) {
            return true;
        }
        k = k + 1;
    }
    contains(hits.tab_scroll_left, point) || contains(hits.tab_scroll_right, point) || contains(hits.new_tab, point)
}

/// Applies a wheel step (`up` or down) at `point`, as `spec_wheel` says.
pub fn route_wheel(state: &mut WheelState, hits: &WheelHits, up: bool, point: (u16, u16)) -> (r: WheelEffect)
    ensures
        (*final(state), r) == spec_wheel(*old(state), *hits, up, point),
{
    if over_tab_bar(hits, point) {
        return if up { WheelEffect::PreviousTab } else { WheelEffect::NextTab };
    }
    if contains(hits.agent_body, point) {
        let next = step_scroll(state.agent_scroll, hits.agent_max_scroll, up);
        if next != state.agent_scroll {
            state.agent_scroll = next;
            return WheelEffect::Repaint;
        }
        return WheelEffect::Nothing;
    }
    if contains(hits.workspace_body, point) {
        let next = step_scroll(state.workspace_scroll, hits.workspace_max_scroll, up);
        if next != state.workspace_scroll {
            state.workspace_scroll = next;
            return WheelEffect::Repaint;
        }
        return WheelEffect::Nothing;
    }
    WheelEffect::NotHandled
}


/// The modifiers held with a mouse event.
#[derive(Clone, Copy, Debug, PartialEq, Eq, Structural)]
pub struct MouseModifiers {
    pub shift: bool,
    pub control: bool,
    pub alt: bool,
    pub super_key: bool,
    pub hyper: bool,
    pub meta: bool,
}

/// Whether no modifier is held.
pub open spec fn no_modifiers(m: MouseModifiers) -> bool {
    !m.shift && !m.control && !m.alt && !m.super_key && !m.hyper && !m.meta
}

/// What a right click asks of the caller: `Forward` sends it to the pane of
/// hit `pane` (without the held modifiers when `strip_modifiers`), focuses that
/// pane and follows the gesture until the button is released; the `..Menu`
/// effects open that context menu at the pointer and repaint; `Nothing` does
/// nothing.
#[derive(Debug)]
pub enum RightClick {
    Forward { pane: usize, strip_modifiers: bool },
    WorkspaceMenu(String),
    TabMenu(String),
    PaneMenu(String),
    Nothing,
}

/// The first pane hit whose content holds `point`.
pub open spec fn first_inner_hit(hits: Seq<PaneHit>, point: (u16, u16)) -> Option<int>
    decreases hits.len(),
{
    if hits.len() == 0 {
        None
    } else if spec_contains(hits[0].inner_rect, point) {
        Some(0)
    } else {
        match first_inner_hit(hits.drop_first(), point) {
            Some(i) => Some(i + 1),
            None => None,
        }
    }
}

/// The first pane hit whose cells (border included) hold `point`.
pub open spec fn first_outer_hit(hits: Seq<PaneHit>, point: (u16, u16)) -> Option<int>
    decreases hits.len(),
{
    if hits.len() == 0 {
        None
    } else if spec_contains(hits[0].rect, point) {
        Some(0)
    } else {
        match first_outer_hit(hits.drop_first(), point) {
            Some(i) => Some(i + 1),
            None => None,
        }
    }
}

/// The id of the first drawn workspace row holding `point`.
pub open spec fn first_workspace_hit(hits: Seq<WorkspaceHit>, point: (u16, u16)) -> Option<Seq<char>>
    decreases hits.len(),
{
    if hits.len() == 0 {
        None
    } else if spec_contains(hits[0].rect, point) {
        Some(hits[0].workspace_id@)
    } else {
        first_workspace_hit(hits.drop_first(), point)
    }
}

/// The id of the first drawn tab holding `point`.
pub open spec fn first_tab_hit(hits: Seq<(Rect, String)>, point: (u16, u16)) -> Option<Seq<char>>
    decreases hits.len(),
{
    if hits.len() == 0 {
        None
    } else if spec_contains(hits[0].0, point) {
        Some(hits[0].1@)
    } else {
        first_tab_hit(hits.drop_first(), point)
    }
}

/// Whether the first pane of `panes` with id `id` takes right clicks itself.
pub open spec fn passes_right_click(panes: Seq<ClientShellPane>, id: Seq<char>) -> bool
    decreases panes.len(),
{
    if panes.len() == 0 {
        false
    } else if panes[0].pane_id@ == id {
        panes[0].right_click_passthrough
    } else {
        passes_right_click(panes.drop_first(), id)
    }
}

/// What a right click at `point` with `mods` held does. It goes to the pane
/// whose content it hit when that pane reports the mouse and either takes right
/// clicks itself (with no modifier held) or the configured passthrough
/// modifiers are exactly those held (which are then stripped). Otherwise, with
/// mouse capture on, it opens the menu of the workspace row it hit (when the
/// sidebar is expanded), else of the tab, else of the pane.
pub open spec fn spec_right_click(
    snapshot: Option<ClientShellSnapshot>,
    panes: Seq<PaneHit>,
    workspaces: Seq<WorkspaceHit>,
    tabs: Seq<(Rect, String)>,
    sidebar_collapsed: bool,
    mouse_capture: bool,
    passthrough: Option<MouseModifiers>,
    mods: MouseModifiers,
    point: (u16, u16),
) -> RightClickView {
    let forward = match first_inner_hit(panes, point) {
        Some(i) => {
            let owns = match snapshot {
                Some(s) => passes_right_click(s.panes@, panes[i].pane_id@),
                None => false,
            } && no_modifiers(mods);
            let configured = passthrough == Some(mods);
            if panes[i].mouse_reporting && (owns || configured) {
                Some(RightClickView::Forward { pane: i, strip_modifiers: configured })
            } else {
                None
            }
        },
        None => None,
    };
    match forward {
        Some(f) => f,
        None => if !mouse_capture {
            RightClickView::Nothing
        } else {
            match (if sidebar_collapsed { None } else { first_workspace_hit(workspaces, point) }) {
                Some(w) => RightClickView::WorkspaceMenu(w),
                None => match first_tab_hit(tabs, point) {
                    Some(t) => RightClickView::TabMenu(t),
                    None => match first_outer_hit(panes, point) {
                        Some(p) => RightClickView::PaneMenu(panes[p].pane_id@),
                        None => RightClickView::Nothing,
                    },
                },
            }
        },
    }
}

/// A right click's effect as plain values.
pub ghost enum RightClickView {
    Forward { pane: int, strip_modifiers: bool },
    WorkspaceMenu(Seq<char>),
    TabMenu(Seq<char>),
    PaneMenu(Seq<char>),
    Nothing,
}

impl RightClick {
    pub open spec fn view(&self) -> RightClickView {
        match self {
            RightClick::Forward { pane, strip_modifiers } => RightClickView::Forward {
                pane: *pane as int,
                strip_modifiers: *strip_modifiers,
            },
            RightClick::WorkspaceMenu(w) => RightClickView::WorkspaceMenu(w@),
            RightClick::TabMenu(t) => RightClickView::TabMenu(t@),
            RightClick::PaneMenu(p) => RightClickView::PaneMenu(p@),
            RightClick::Nothing => RightClickView::Nothing,
        }
    }
}

fn find_inner_hit(hits: &[PaneHit], point: (u16, u16), outer: bool) -> (r: Option<usize>)
    ensures
        match r {
            Some(i) => (if outer { first_outer_hit(hits@, point) } else { first_inner_hit(hits@, point) }) == Some(
                i as int,
            ) && i < hits@.len(),
            None => (if outer { first_outer_hit(hits@, point) } else { first_inner_hit(hits@, point) }) is None,
        },
{
    let ghost f = |s: Seq<PaneHit>| if outer { first_outer_hit(s, point) } else { first_inner_hit(s, point) };
    let mut k: usize = 0;
    assert(hits@.subrange(0, hits@.len() as int) =~= hits@);
    while k < hits.len()
        invariant
            k <= hits@.len(),
            f == (|s: Seq<PaneHit>| if outer { first_outer_hit(s, point) } else { first_inner_hit(s, point) }),
            f(hits@) == match f(hits@.subrange(k as int, hits@.len() as int)) {
                Some(i) => Some(i + k),
                None => None::<int>,
            },
        decreases hits@.len() - k,
    {
        let ghost rest = hits@.subrange(k as int, hits@.len() as int);
        assert(rest.drop_first() =~= hits@.subrange(k + 1, hits@.len() as int));
        assert(rest[0] == hits@[k as int]);
        let r = if outer { hits[k].rect } else { hits[k].inner_rect };
        if contains(r, point) {
            return Some(k);
        }
        k = k + 1;
    }
    None
}

fn find_workspace_hit(hits: &[WorkspaceHit], point: (u16, u16)) -> (r: Option<String>)
    ensures
        opt_view(r) == first_workspace_hit(hits@, point),
{
    let mut k: usize = 0;
    assert(hits@.subrange(0, hits@.len() as int) =~= hits@);
    while k < hits.len()
        invariant
            k <= hits@.len(),
            first_workspace_hit(hits@, point) == first_workspace_hit(hits@.subrange(k as int, hits@.len() as int), point),
        decreases hits@.len() - k,
    {
        let ghost rest = hits@.subrange(k as int, hits@.len() as int);
        assert(rest.drop_first() =~= hits@.subrange(k + 1, hits@.len() as int));
        assert(rest[0] == hits@[k as int]);
        if contains(hits[k].rect, point) {
            return Some(hits[k].workspace_id.clone());
        }
        k = k + 1;
    }
    None
}

fn find_tab_hit(hits: &[(Rect, String)], point: (u16, u16)) -> (r: Option<String>)
    ensures
        opt_view(r) == first_tab_hit(hits@, point),
{
    let mut k: usize = 0;
    assert(hits@.subrange(0, hits@.len() as int) =~= hits@);
    while k < hits.len()
        invariant
            k <= hits@.len(),
            first_tab_hit(hits@, point) == first_tab_hit(hits@.subrange(k as int, hits@.len() as int), point),
        decreases hits@.len() - k,
    {
        let ghost rest = hits@.subrange(k as int, hits@.len() as int);
        assert(rest.drop_first() =~= hits@.subrange(k + 1, hits@.len() as int));
        assert(rest[0] == hits@[k as int]);
        if contains(hits[k].0, point) {
            return Some(hits[k].1.clone());
        }
        k = k + 1;
    }
    None
}

fn pane_passes(panes: &Vec<ClientShellPane>, id: &str) -> (r: bool)
    ensures
        r == passes_right_click(panes@, id@),
{
    let mut k: usize = 0;
    assert(panes@.subrange(0, panes@.len() as int) =~= panes@);
    while k < panes.len()
        invariant
            k <= panes@.len(),
            passes_right_click(panes@, id@) == passes_right_click(panes@.subrange(k as int, panes@.len() as int), id@),
        decreases panes@.len() - k,
    {
        let ghost rest = panes@.subrange(k as int, panes@.len() as int);
        assert(rest.drop_first() =~= panes@.subrange(k + 1, panes@.len() as int));
        assert(rest[0] == panes@[k as int]);
        if crate::text::str_equal(panes[k].pane_id.as_str(), id) {
            return panes[k].right_click_passthrough;
        }
        k = k + 1;
    }
    false
}

/// Decides a right click at `point` with `mods` held, as `spec_right_click`
/// says. `panes`, `workspaces` and `tabs` are the drawn hits, `passthrough` the
/// configured modifiers that pass a right click to a pane.
pub fn right_click(
    snapshot: &Option<ClientShellSnapshot>,
    panes: &[PaneHit],
    workspaces: &[WorkspaceHit],
    tabs: &[(Rect, String)],
    sidebar_collapsed: bool,
    mouse_capture: bool,
    passthrough: Option<MouseModifiers>,
    mods: MouseModifiers,
    point: (u16, u16),
) -> (r: RightClick)
    ensures
        r@ == spec_right_click(
            *snapshot,
            panes@,
            workspaces@,
            tabs@,
            sidebar_collapsed,
            mouse_capture,
            passthrough,
            mods,
            point,
        ),
{
    if let Some(i) = find_inner_hit(panes, point, false) {
        let owns = match snapshot {
            Some(s) => pane_passes(&s.panes, panes[i].pane_id.as_str()),
            None => false,
        } && !mods.shift && !mods.control && !mods.alt && !mods.super_key && !mods.hyper && !mods.meta;
        let configured = match passthrough {
            Some(m) => m == mods,
            None => false,
        };
        if panes[i].mouse_reporting && (owns || configured) {
            return RightClick::Forward { pane: i, strip_modifiers: configured };
        }
    }
    if !mouse_capture {
        return RightClick::Nothing;
    }
    if !sidebar_collapsed {
        if let Some(w) = find_workspace_hit(workspaces, point) {
            return RightClick::WorkspaceMenu(w);
        }
    }
    if let Some(t) = find_tab_hit(tabs, point) {
        return RightClick::TabMenu(t);
    }
    match find_inner_hit(panes, point, true) {
        Some(p) => RightClick::PaneMenu(panes[p].pane_id.clone()),
        None => RightClick::Nothing,
    }
}


/// A mouse button.
#[derive(Clone, Copy, Debug, PartialEq, Eq, Structural)]
pub enum MouseButton {
    Left,
    Right,
    Middle,
}

/// The kind of a mouse event, as far as a pane's gesture tells them apart.
#[derive(Clone, Copy, Debug, PartialEq, Eq, Structural)]
pub enum ButtonEvent {
    Down(MouseButton),
    Drag(MouseButton),
    Up(MouseButton),
    /// Moves, wheel steps and other events.
    Other,
}

/// A press that went to a pane: the pane, the button, and the modifiers
/// stripped from its events.
#[derive(Debug)]
pub struct PaneGesture {
    pub pane_id: String,
    pub button: MouseButton,
    pub stripped: MouseModifiers,
}

/// What a pane gesture does with an event: `Forward` sends it to the gesture's
/// pane (drawn at hit `current` when it is still drawn, else where the gesture
/// began) with `modifiers` held, and `ended` tells that the button came up;
/// `Swallowed` drops a button event of another button; `NotGesture` hands the
/// event on.
#[derive(Clone, Copy, Debug, PartialEq, Eq, Structural)]
pub enum GestureStep {
    Forward { current: Option<usize>, modifiers: MouseModifiers, ended: bool },
    Swallowed,
    NotGesture,
}

/// `held` without the modifiers of `stripped`.
pub open spec fn without(held: MouseModifiers, stripped: MouseModifiers) -> MouseModifiers {
    MouseModifiers {
        shift: held.shift && !stripped.shift,
        control: held.control && !stripped.control,
        alt: held.alt && !stripped.alt,
        super_key: held.super_key && !stripped.super_key,
        hyper: held.hyper && !stripped.hyper,
        meta: held.meta && !stripped.meta,
    }
}

/// The first pane hit of pane `id`.
pub open spec fn first_hit_of(hits: Seq<PaneHit>, id: Seq<char>) -> Option<int>
    decreases hits.len(),
{
    if hits.len() == 0 {
        None
    } else if hits[0].pane_id@ == id {
        Some(0)
    } else {
        match first_hit_of(hits.drop_first(), id) {
            Some(i) => Some(i + 1),
            None => None,
        }
    }
}

/// What the gesture `g` (if any) does with `event` held with `mods`: a drag or
/// release of its button goes to its pane without the stripped modifiers, and
/// a release ends it; other button events are dropped while it lasts; anything
/// else goes on.
pub open spec fn spec_gesture_step(
    g: Option<(Seq<char>, MouseButton, MouseModifiers)>,
    hits: Seq<PaneHit>,
    event: ButtonEvent,
    mods: MouseModifiers,
) -> (GestureStep, bool) {
    match g {
        None => (GestureStep::NotGesture, false),
        Some((id, button, stripped)) => if event == ButtonEvent::Drag(button) || event == ButtonEvent::Up(button) {
            let ended = event == ButtonEvent::Up(button);
            let current = match first_hit_of(hits, id) {
                Some(i) => Some(i as usize),
                None => None,
            };
            (GestureStep::Forward { current, modifiers: without(mods, stripped), ended }, ended)
        } else if event == ButtonEvent::Other {
            (GestureStep::NotGesture, false)
        } else {
            (GestureStep::Swallowed, false)
        },
    }
}

/// The gesture as plain values.
pub open spec fn gesture_view(g: Option<PaneGesture>) -> Option<(Seq<char>, MouseButton, MouseModifiers)> {
    match g {
        Some(p) => Some((p.pane_id@, p.button, p.stripped)),
        None => None,
    }
}

fn hit_of_pane(hits: &[PaneHit], id: &str) -> (r: Option<usize>)
    ensures
        match r {
            Some(i) => first_hit_of(hits@, id@) == Some(i as int),
            None => first_hit_of(hits@, id@) is None,
        },
{
    let mut k: usize = 0;
    assert(hits@.subrange(0, hits@.len() as int) =~= hits@);
    while k < hits.len()
        invariant
            k <= hits@.len(),
            first_hit_of(hits@, id@) == match first_hit_of(hits@.subrange(k as int, hits@.len() as int), id@) {
                Some(i) => Some(i + k),
                None => None::<int>,
            },
        decreases hits@.len() - k,
    {
        let ghost rest = hits@.subrange(k as int, hits@.len() as int);
        assert(rest.drop_first() =~= hits@.subrange(k + 1, hits@.len() as int));
        assert(rest[0] == hits@[k as int]);
        if crate::text::str_equal(hits[k].pane_id.as_str(), id) {
            return Some(k);
        }
        k = k + 1;
    }
    None
}

/// Routes `event` (held with `mods`) through the pane gesture in progress, as
/// `spec_gesture_step` says; the gesture ends when its button comes up.
/// `hits` are the panes drawn now.
pub fn gesture_step(gesture: &mut Option<PaneGesture>, hits: &[PaneHit], event: ButtonEvent, mods: MouseModifiers) -> (r:
    GestureStep)
    ensures
        ({
            let (step, ended) = spec_gesture_step(gesture_view(*old(gesture)), hits@, event, mods);
            &&& r == step
            &&& if ended { *final(gesture) is None } else { *final(gesture) == *old(gesture) }
        }),
{
    let (button, stripped, current) = match gesture {
        None => return GestureStep::NotGesture,
        Some(g) => (g.button, g.stripped, hit_of_pane(hits, g.pane_id.as_str())),
    };
    let ours = match event {
        ButtonEvent::Drag(b) | ButtonEvent::Up(b) => b == button,
        _ => false,
    };
    if ours {
        let ended = event == ButtonEvent::Up(button);
        let modifiers = MouseModifiers {
            shift: mods.shift && !stripped.shift,
            control: mods.control && !stripped.control,
            alt: mods.alt && !stripped.alt,
            super_key: mods.super_key && !stripped.super_key,
            hyper: mods.hyper && !stripped.hyper,
            meta: mods.meta && !stripped.meta,
        };
        if ended {
            *gesture = None;
        }
        return GestureStep::Forward { current, modifiers, ended };
    }
    match event {
        ButtonEvent::Other => GestureStep::NotGesture,
        _ => GestureStep::Swallowed,
    }
}

} // verus!
