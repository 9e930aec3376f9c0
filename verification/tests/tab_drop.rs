use herdr::geometry::Rect;
use herdr::snapshot::{ClientShellSnapshot, ClientShellTab};
use herdr::status::AgentStatus;
use herdr::tab_drop::tab_drop_index_at;

fn tab(id: &str, workspace_id: &str) -> ClientShellTab {
    ClientShellTab {
        tab_id: id.into(),
        workspace_id: workspace_id.into(),
        number: 1,
        label: id.into(),
        custom_label: false,
        zoomed: false,
        focused: false,
        agent_status: AgentStatus::Idle,
    }
}

fn snapshot(focused: Option<&str>) -> ClientShellSnapshot {
    ClientShellSnapshot {
        boot_id: "boot".into(),
        revision: 1,
        focused_workspace_id: focused.map(str::to_owned),
        focused_tab_id: None,
        focused_pane_id: None,
        workspaces: Vec::new(),
        tabs: vec![tab("t1", "w1"), tab("x1", "w2"), tab("t2", "w1"), tab("t3", "w1")],
        panes: Vec::new(),
        agents: Vec::new(),
    }
}

fn hit(x: u16, width: u16, id: &str) -> (Rect, String) {
    (Rect::new(x, 0, width, 1), id.to_owned())
}

const NONE: Rect = Rect { x: 0, y: 0, width: 0, height: 0 };

#[test]
fn drop_lands_before_or_after_the_tab_under_the_pointer() {
    let snap = snapshot(Some("w1"));
    let hits = vec![hit(0, 8, "t1"), hit(8, 8, "t2"), hit(16, 8, "t3"), hit(24, 8, "x1")];
    let at = |x: u16, y: u16| tab_drop_index_at(&snap, &hits, NONE, NONE, (x, y));
    assert_eq!(at(0, 0), Some(0));
    assert_eq!(at(2, 0), Some(0));
    assert_eq!(at(5, 0), Some(1));
    assert_eq!(at(11, 0), Some(1));
    assert_eq!(at(12, 0), Some(2));
    assert_eq!(at(19, 0), Some(2));
    assert_eq!(at(20, 0), Some(3));
    assert_eq!(at(23, 0), Some(3));
    assert_eq!(at(30, 0), Some(3));
    assert_eq!(at(5, 1), None);
}

#[test]
fn scrolled_tab_bar_uses_its_arrows() {
    let snap = snapshot(Some("w1"));
    let hits = vec![hit(3, 8, "t2")];
    let left = Rect::new(0, 0, 3, 1);
    let right = Rect::new(11, 0, 3, 1);
    let at = |x: u16| tab_drop_index_at(&snap, &hits, left, right, (x, 0));
    assert_eq!(at(1), Some(0));
    assert_eq!(at(12), Some(3));
    assert_eq!(at(3), Some(1));
    assert_eq!(at(6), Some(1));
    assert_eq!(at(8), Some(2));
    assert_eq!(at(10), Some(2));
}

#[test]
fn no_drop_without_focused_workspace_or_drawn_tabs() {
    let hits = vec![hit(0, 8, "t1")];
    assert_eq!(tab_drop_index_at(&snapshot(None), &hits, NONE, NONE, (2, 0)), None);
    let other = vec![hit(0, 8, "x1"), hit(8, 8, "gone")];
    assert_eq!(tab_drop_index_at(&snapshot(Some("w1")), &other, NONE, NONE, (2, 0)), None);
}

use herdr::mouse_release::{release_left_button, ChromeDrag, PressState, TabPress, WorkspacePress};

fn tab_drag(tab_id: &str, workspace_id: &str) -> PressState {
    PressState {
        chrome_drag: Some(ChromeDrag::Tab { tab_id: tab_id.into(), workspace_id: workspace_id.into(), insert_index: None }),
        workspace_press: Some(WorkspacePress { workspace_id: "w1".into(), start_column: 0, start_row: 0 }),
        tab_press: None,
    }
}

fn release(state: &mut PressState, snap: Option<ClientShellSnapshot>, x: u16) -> String {
    let hits = vec![hit(0, 8, "t1"), hit(8, 8, "t2"), hit(16, 8, "t3")];
    format!("{:?}", release_left_button(state, &snap, &hits, NONE, NONE, (x, 0)))
}

#[test]
fn releasing_a_dragged_tab_moves_it_where_it_was_dropped() {
    let mut state = tab_drag("t1", "w1");
    assert_eq!(release(&mut state, Some(snapshot(Some("w1"))), 20), "TabMove { tab_id: \"t1\", insert_index: 3 }");
    assert!(state.chrome_drag.is_none() && state.workspace_press.is_none());
    let mut state = tab_drag("x1", "w2");
    assert_eq!(release(&mut state, Some(snapshot(Some("w1"))), 20), "TabDropRejected");
    let mut state = tab_drag("t9", "w1");
    assert_eq!(release(&mut state, Some(snapshot(Some("w1"))), 20), "TabDropRejected");
    let mut state = tab_drag("t1", "w1");
    assert_eq!(release(&mut state, None, 20), "TabDropRejected");
}

#[test]
fn releasing_a_press_without_a_drag_is_a_click() {
    let mut state = PressState {
        chrome_drag: None,
        workspace_press: Some(WorkspacePress { workspace_id: "w2".into(), start_column: 3, start_row: 4 }),
        tab_press: Some(TabPress { tab_id: "t2".into(), workspace_id: "w1".into(), start_column: 9, start_row: 0 }),
    };
    assert_eq!(release(&mut state, None, 0), "FocusWorkspace(\"w2\")");
    assert!(state.tab_press.is_some());
    assert_eq!(release(&mut state, None, 0), "FocusTab(\"t2\")");
    assert_eq!(release(&mut state, None, 0), "NotReleased");
    let mut state = PressState { chrome_drag: Some(ChromeDrag::SidebarWidth), workspace_press: None, tab_press: None };
    assert_eq!(release(&mut state, None, 0), "PersistChrome");
    let mut state = PressState { chrome_drag: Some(ChromeDrag::PaneSplit(7)), workspace_press: None, tab_press: None };
    assert_eq!(release(&mut state, None, 0), "SplitReleased(7)");
}

use herdr::mouse_release::{drag_left_button, DragEffect, DragHits};

fn drag_hits() -> DragHits {
    DragHits {
        tabs: vec![hit(0, 8, "t1"), hit(8, 8, "t2"), hit(16, 8, "t3")],
        tab_scroll_left: NONE,
        tab_scroll_right: NONE,
        workspaces: Vec::new(),
        workspace_body: NONE,
        new_workspace: NONE,
    }
}

#[test]
fn a_tab_press_becomes_a_drag_once_the_pointer_moves() {
    let snap = Some(snapshot(Some("w1")));
    let mut state = PressState {
        chrome_drag: None,
        workspace_press: None,
        tab_press: Some(TabPress { tab_id: "t1".into(), workspace_id: "w1".into(), start_column: 2, start_row: 0 }),
    };
    assert_eq!(drag_left_button(&mut state, &snap, &[], &drag_hits(), (2, 0)), DragEffect::Nothing);
    assert!(state.chrome_drag.is_none());
    assert_eq!(drag_left_button(&mut state, &snap, &[], &drag_hits(), (12, 0)), DragEffect::Repaint);
    assert!(matches!(state.chrome_drag, Some(ChromeDrag::Tab { insert_index: Some(2), .. })));
    assert_eq!(drag_left_button(&mut state, &snap, &[], &drag_hits(), (20, 0)), DragEffect::Repaint);
    assert!(matches!(state.chrome_drag, Some(ChromeDrag::Tab { insert_index: Some(3), .. })));
    assert_eq!(release(&mut state, snap.clone(), 20), "TabMove { tab_id: \"t1\", insert_index: 3 }");
}

#[test]
fn an_unknown_workspace_press_never_becomes_a_drag() {
    let snap = Some(snapshot(Some("w1")));
    let mut state = PressState {
        chrome_drag: None,
        workspace_press: Some(WorkspacePress { workspace_id: "w9".into(), start_column: 0, start_row: 3 }),
        tab_press: None,
    };
    assert_eq!(drag_left_button(&mut state, &snap, &[], &drag_hits(), (0, 5)), DragEffect::Nothing);
    assert!(state.chrome_drag.is_none());
    let mut idle = PressState { chrome_drag: None, workspace_press: None, tab_press: None };
    assert_eq!(drag_left_button(&mut idle, &snap, &[], &drag_hits(), (0, 5)), DragEffect::NotDragged);
    let mut divider = PressState { chrome_drag: Some(ChromeDrag::PaneSplit(1)), workspace_press: None, tab_press: None };
    assert_eq!(drag_left_button(&mut divider, &snap, &[], &drag_hits(), (0, 5)), DragEffect::Delegate);
}

use herdr::mouse_release::{route_wheel, WheelEffect, WheelHits, WheelState};

fn wheel_hits() -> WheelHits {
    WheelHits {
        tabs: vec![hit(0, 8, "t1"), hit(8, 8, "t2")],
        tab_scroll_left: NONE,
        tab_scroll_right: NONE,
        new_tab: Rect::new(16, 0, 3, 1),
        agent_body: Rect::new(0, 10, 20, 5),
        agent_max_scroll: 2,
        workspace_body: Rect::new(0, 2, 20, 8),
        workspace_max_scroll: 0,
    }
}

#[test]
fn the_wheel_steps_tabs_and_scrolls_the_sidebar_lists_within_bounds() {
    let mut state = WheelState { agent_scroll: 1, workspace_scroll: 0 };
    assert_eq!(route_wheel(&mut state, &wheel_hits(), true, (3, 0)), WheelEffect::PreviousTab);
    assert_eq!(route_wheel(&mut state, &wheel_hits(), false, (17, 0)), WheelEffect::NextTab);
    assert_eq!(route_wheel(&mut state, &wheel_hits(), false, (3, 11)), WheelEffect::Repaint);
    assert_eq!(state.agent_scroll, 2);
    assert_eq!(route_wheel(&mut state, &wheel_hits(), false, (3, 11)), WheelEffect::Nothing);
    assert_eq!(route_wheel(&mut state, &wheel_hits(), true, (3, 11)), WheelEffect::Repaint);
    assert_eq!(state.agent_scroll, 1);
    assert_eq!(route_wheel(&mut state, &wheel_hits(), true, (3, 4)), WheelEffect::Nothing);
    assert_eq!(route_wheel(&mut state, &wheel_hits(), true, (40, 40)), WheelEffect::NotHandled);
}

use herdr::copy_mode::PaneHit;
use herdr::mouse_release::{right_click, MouseModifiers, RightClick};
use herdr::snapshot::ClientShellPane;
use herdr::workspace_drop::WorkspaceHit;

fn pane_hit(id: &str, x: u16, reporting: bool) -> PaneHit {
    PaneHit {
        rect: Rect::new(x, 5, 20, 10),
        inner_rect: Rect::new(x + 1, 6, 18, 8),
        pane_id: id.into(),
        mouse_reporting: reporting,
        sgr_pixel_mouse: false,
        pixel_width: 0,
        pixel_height: 0,
        scroll: None,
    }
}

fn shell_pane(id: &str, passthrough: bool) -> ClientShellPane {
    ClientShellPane {
        pane_id: id.into(),
        workspace_id: "w1".into(),
        tab_id: "t1".into(),
        label: None,
        cwd: None,
        foreground_cwd: None,
        focused: false,
        right_click_passthrough: passthrough,
    }
}

const PLAIN_MODS: MouseModifiers =
    MouseModifiers { shift: false, control: false, alt: false, super_key: false, hyper: false, meta: false };

#[test]
fn a_right_click_goes_to_a_pane_that_asks_or_opens_a_menu() {
    let mut snap = snapshot(Some("w1"));
    snap.panes = vec![shell_pane("p1", true), shell_pane("p2", false)];
    let snap = Some(snap);
    let panes = vec![pane_hit("p1", 30, true), pane_hit("p2", 60, true)];
    let workspaces = vec![WorkspaceHit { rect: Rect::new(0, 3, 20, 1), workspace_id: "w1".into(), indented: false }];
    let tabs = vec![hit(30, 8, "t1")];
    let shift = MouseModifiers { shift: true, ..PLAIN_MODS };
    let click = |mods: MouseModifiers, passthrough: Option<MouseModifiers>, point: (u16, u16), collapsed: bool| {
        format!("{:?}", right_click(&snap, &panes, &workspaces, &tabs, collapsed, true, passthrough, mods, point))
    };
    assert_eq!(click(PLAIN_MODS, None, (35, 8), false), "Forward { pane: 0, strip_modifiers: false }");
    assert_eq!(click(shift, None, (35, 8), false), "PaneMenu(\"p1\")");
    assert_eq!(click(shift, Some(shift), (65, 8), false), "Forward { pane: 1, strip_modifiers: true }");
    assert_eq!(click(PLAIN_MODS, None, (65, 8), false), "PaneMenu(\"p2\")");
    assert_eq!(click(PLAIN_MODS, None, (5, 3), false), "WorkspaceMenu(\"w1\")");
    assert_eq!(click(PLAIN_MODS, None, (5, 3), true), "Nothing");
    assert_eq!(click(PLAIN_MODS, None, (32, 0), false), "TabMenu(\"t1\")");
    let off = format!("{:?}", right_click(&snap, &panes, &workspaces, &tabs, false, false, None, PLAIN_MODS, (65, 8)));
    assert_eq!(off, "Nothing");
}

use herdr::mouse_release::{gesture_step, ButtonEvent, GestureStep, MouseButton, PaneGesture};

#[test]
fn a_pane_gesture_keeps_its_button_until_release() {
    let hits = vec![pane_hit("p0", 0, true), pane_hit("p1", 30, true)];
    let ctrl = MouseModifiers { control: true, ..PLAIN_MODS };
    let ctrl_shift = MouseModifiers { shift: true, ..ctrl };
    let mut gesture = Some(PaneGesture { pane_id: "p1".into(), button: MouseButton::Right, stripped: ctrl });
    assert_eq!(gesture_step(&mut gesture, &hits, ButtonEvent::Other, PLAIN_MODS), GestureStep::NotGesture);
    assert_eq!(gesture_step(&mut gesture, &hits, ButtonEvent::Down(MouseButton::Left), PLAIN_MODS), GestureStep::Swallowed);
    assert_eq!(
        gesture_step(&mut gesture, &hits, ButtonEvent::Drag(MouseButton::Right), ctrl_shift),
        GestureStep::Forward { current: Some(1), modifiers: MouseModifiers { shift: true, ..PLAIN_MODS }, ended: false }
    );
    assert!(gesture.is_some());
    assert_eq!(
        gesture_step(&mut gesture, &[], ButtonEvent::Up(MouseButton::Right), ctrl),
        GestureStep::Forward { current: None, modifiers: PLAIN_MODS, ended: true }
    );
    assert!(gesture.is_none());
    assert_eq!(gesture_step(&mut gesture, &hits, ButtonEvent::Up(MouseButton::Right), ctrl), GestureStep::NotGesture);
}
