use herdr::overlay::{ClientHelpOverlay, ClientNavigatorFilter, ClientNavigatorOverlay};
use herdr::overlay_keys::{route_help_key, route_navigator_key, OverlayKey, OverlayKeyCode, OverlayKeyOutcome};
use herdr::snapshot::{ClientShellSnapshot, ClientShellWorkspace};
use herdr::status::AgentStatus;

fn key(code: OverlayKeyCode) -> OverlayKey {
    OverlayKey {
        code,
        control: false,
        alt: false,
        super_key: false,
        shift: false,
        other_modifiers: false,
        generated_text: None,
    }
}

fn ctrl(c: char) -> OverlayKey {
    OverlayKey { control: true, ..key(OverlayKeyCode::Char(c)) }
}

fn help(query: &str, search_focused: bool, scroll: usize) -> ClientHelpOverlay {
    ClientHelpOverlay { query: query.into(), search_focused, scroll }
}

#[test]
fn help_escape_leaves_the_search_field_before_closing() {
    let mut h = help("ab", true, 3);
    assert_eq!(route_help_key(&mut h, &key(OverlayKeyCode::Esc)), OverlayKeyOutcome::Repaint);
    assert!(!h.search_focused);
    assert_eq!(route_help_key(&mut h, &key(OverlayKeyCode::Esc)), OverlayKeyOutcome::Close);
    assert_eq!(route_help_key(&mut h, &key(OverlayKeyCode::Enter)), OverlayKeyOutcome::Close);
}

#[test]
fn help_search_edits_the_query_and_scrolls_to_the_top() {
    let mut h = help("", false, 7);
    assert_eq!(route_help_key(&mut h, &key(OverlayKeyCode::Char('/'))), OverlayKeyOutcome::Repaint);
    assert!(h.search_focused);
    route_help_key(&mut h, &key(OverlayKeyCode::Char('k')));
    route_help_key(&mut h, &OverlayKey { shift: true, generated_text: Some("Ü".into()), ..key(OverlayKeyCode::Char('u')) });
    assert_eq!(h.query, "kÜ");
    assert_eq!(h.scroll, 0);
    route_help_key(&mut h, &key(OverlayKeyCode::Backspace));
    assert_eq!(h.query, "k");
    route_help_key(&mut h, &ctrl('u'));
    assert_eq!(h.query, "");
}

#[test]
fn help_scrolls_by_lines_and_pages_without_going_below_the_top() {
    let mut h = help("", false, 3);
    route_help_key(&mut h, &key(OverlayKeyCode::PageDown));
    assert_eq!(h.scroll, 13);
    route_help_key(&mut h, &key(OverlayKeyCode::Char('k')));
    assert_eq!(h.scroll, 12);
    route_help_key(&mut h, &key(OverlayKeyCode::PageUp));
    route_help_key(&mut h, &key(OverlayKeyCode::PageUp));
    assert_eq!(h.scroll, 0);
    assert_eq!(route_help_key(&mut h, &key(OverlayKeyCode::Home)), OverlayKeyOutcome::Ignored);
}

fn workspace(id: &str) -> ClientShellWorkspace {
    ClientShellWorkspace {
        workspace_id: id.into(),
        number: 1,
        label: id.into(),
        custom_label: false,
        branch: None,
        git_ahead_behind: None,
        tokens: Vec::new(),
        worktree: None,
        focused: false,
        agent_status: AgentStatus::Idle,
    }
}

fn three_workspaces() -> Option<ClientShellSnapshot> {
    Some(ClientShellSnapshot {
        boot_id: "boot".into(),
        revision: 1,
        focused_workspace_id: None,
        focused_tab_id: None,
        focused_pane_id: None,
        workspaces: vec![workspace("w1"), workspace("w2"), workspace("w3")],
        tabs: Vec::new(),
        panes: Vec::new(),
        agents: Vec::new(),
    })
}

fn navigator(query: &str, search_focused: bool, selected: usize) -> ClientNavigatorOverlay {
    ClientNavigatorOverlay {
        query: query.into(),
        search_focused,
        selected,
        scroll: 2,
        filter: None,
        expanded_workspaces: Vec::new(),
    }
}

#[test]
fn navigator_keys_move_the_selection_within_the_rows() {
    let s = three_workspaces();
    let mut n = navigator("", false, 0);
    assert_eq!(route_navigator_key(&s, &mut n, &key(OverlayKeyCode::Char('j'))), OverlayKeyOutcome::Repaint);
    assert_eq!(n.selected, 1);
    route_navigator_key(&s, &mut n, &ctrl('d'));
    assert_eq!(n.selected, 2);
    route_navigator_key(&s, &mut n, &ctrl('u'));
    assert_eq!(n.selected, 0);
    route_navigator_key(&s, &mut n, &key(OverlayKeyCode::End));
    assert_eq!(n.selected, 2);
    route_navigator_key(&s, &mut n, &key(OverlayKeyCode::Home));
    assert_eq!((n.selected, n.scroll), (0, 0));
    assert_eq!(route_navigator_key(&s, &mut n, &key(OverlayKeyCode::Enter)), OverlayKeyOutcome::Accept);
}

#[test]
fn navigator_filters_and_search_reset_the_selection() {
    let s = three_workspaces();
    let mut n = navigator("old", false, 2);
    route_navigator_key(&s, &mut n, &key(OverlayKeyCode::Char('w')));
    assert_eq!(n.filter, Some(ClientNavigatorFilter::Working));
    assert_eq!((n.query.as_str(), n.selected), ("", 0));
    route_navigator_key(&s, &mut n, &key(OverlayKeyCode::Char('/')));
    assert!(n.search_focused);
    assert_eq!(n.filter, None);
    route_navigator_key(&s, &mut n, &key(OverlayKeyCode::Char('w')));
    route_navigator_key(&s, &mut n, &key(OverlayKeyCode::Char('2')));
    assert_eq!(n.query, "w2");
    route_navigator_key(&s, &mut n, &key(OverlayKeyCode::Backspace));
    assert_eq!(n.query, "w");
    assert_eq!(route_navigator_key(&s, &mut n, &key(OverlayKeyCode::Esc)), OverlayKeyOutcome::Repaint);
    assert!(!n.search_focused);
    assert_eq!(route_navigator_key(&s, &mut n, &key(OverlayKeyCode::Esc)), OverlayKeyOutcome::Close);
}

#[test]
fn navigator_space_unfolds_the_selected_workspace() {
    let s = three_workspaces();
    let mut n = navigator("", false, 1);
    assert_eq!(route_navigator_key(&s, &mut n, &key(OverlayKeyCode::Char(' '))), OverlayKeyOutcome::Repaint);
    assert_eq!(n.expanded_workspaces, vec!["w2".to_string()]);
    assert_eq!((n.selected, n.scroll), (0, 0));
    assert_eq!(route_navigator_key(&s, &mut n, &key(OverlayKeyCode::Char('x'))), OverlayKeyOutcome::Ignored);
}

use herdr::text::trim;

#[test]
fn trimming_drops_unicode_white_space_at_both_ends() {
    assert_eq!(trim("\u{3000}\t logs \u{2009}\u{85}"), "logs");
    assert_eq!(trim("\u{200b}x"), "\u{200b}x");
    assert_eq!(trim(" a b "), "a b");
}

use herdr::geometry::Rect;
use herdr::overlay_keys::{route_help_mouse, route_navigator_mouse, OverlayMouse};

#[test]
fn the_wheel_scrolls_the_help_and_its_buttons_close_it() {
    let mut h = help("", false, 0);
    let button = Rect::new(10, 10, 6, 1);
    let none = Rect::new(0, 0, 0, 0);
    assert_eq!(route_help_mouse(&mut h, OverlayMouse::ScrollUp, (0, 0), button, none), OverlayKeyOutcome::Repaint);
    assert_eq!(h.scroll, 0);
    route_help_mouse(&mut h, OverlayMouse::ScrollDown, (0, 0), button, none);
    assert_eq!(h.scroll, 1);
    assert_eq!(route_help_mouse(&mut h, OverlayMouse::LeftDown, (12, 10), button, none), OverlayKeyOutcome::Close);
    assert_eq!(route_help_mouse(&mut h, OverlayMouse::LeftDown, (2, 2), button, none), OverlayKeyOutcome::Ignored);
}

#[test]
fn clicking_navigator_rows_selects_folds_or_accepts() {
    let s = three_workspaces();
    let rows = vec![(Rect::new(5, 3, 30, 1), 0), (Rect::new(5, 4, 30, 1), 1), (Rect::new(5, 5, 30, 1), 2)];
    let search = Rect::new(5, 1, 30, 1);
    let popup = Rect::new(4, 0, 32, 10);
    let mut n = navigator("", false, 0);
    let mut event = |n: &mut ClientNavigatorOverlay, e: OverlayMouse, p: (u16, u16)| {
        route_navigator_mouse(&s, n, e, p, &rows, search, popup)
    };
    assert_eq!(event(&mut n, OverlayMouse::Moved, (10, 5)), OverlayKeyOutcome::Repaint);
    assert_eq!(n.selected, 2);
    assert_eq!(event(&mut n, OverlayMouse::LeftDown, (20, 4)), OverlayKeyOutcome::Accept);
    assert_eq!(n.selected, 1);
    assert_eq!(event(&mut n, OverlayMouse::LeftDown, (6, 4)), OverlayKeyOutcome::Repaint);
    assert_eq!(n.expanded_workspaces, vec!["w2".to_string()]);
    assert_eq!(event(&mut n, OverlayMouse::LeftDown, (10, 1)), OverlayKeyOutcome::Repaint);
    assert!(n.search_focused);
    assert_eq!(event(&mut n, OverlayMouse::LeftDown, (5, 8)), OverlayKeyOutcome::Ignored);
    assert_eq!(event(&mut n, OverlayMouse::LeftDown, (50, 8)), OverlayKeyOutcome::Close);
    assert_eq!(event(&mut n, OverlayMouse::ScrollDown, (0, 0)), OverlayKeyOutcome::Repaint);
}

use herdr::input::{ClientRenameOverlay, ClientRenameTarget};
use herdr::overlay::{ClientConfirmCloseOverlay, ClientShellOverlay};
use herdr::overlay_keys::{route_dialog_click, DialogClick};

#[test]
fn dialog_buttons_save_confirm_or_clear_and_other_clicks_close() {
    let primary = Rect::new(10, 10, 8, 1);
    let clear = Rect::new(20, 10, 8, 1);
    let mut rename = ClientShellOverlay::Rename(ClientRenameOverlay {
        title: "Rename pane",
        input: "logs".into(),
        replace_on_type: true,
        target: ClientRenameTarget::Pane { pane_id: "p1".into() },
    });
    assert!(matches!(route_dialog_click(&mut rename, OverlayMouse::LeftDown, (12, 10), primary, clear), DialogClick::Save));
    assert!(matches!(route_dialog_click(&mut rename, OverlayMouse::LeftDown, (22, 10), primary, clear), DialogClick::Cleared));
    match &rename {
        ClientShellOverlay::Rename(r) => assert!(r.input.is_empty() && !r.replace_on_type),
        _ => panic!("still a rename prompt"),
    }
    assert!(matches!(route_dialog_click(&mut rename, OverlayMouse::Moved, (22, 10), primary, clear), DialogClick::Ignored));
    assert!(matches!(route_dialog_click(&mut rename, OverlayMouse::LeftDown, (0, 0), primary, clear), DialogClick::Close));
    let mut confirm = ClientShellOverlay::ConfirmClose(ClientConfirmCloseOverlay {
        workspace_id: "w2".into(),
        title: "Close".into(),
        detail: "".into(),
    });
    match route_dialog_click(&mut confirm, OverlayMouse::LeftDown, (12, 10), primary, clear) {
        DialogClick::CloseWorkspace(w) => assert_eq!(w, "w2"),
        other => panic!("unexpected {other:?}"),
    }
}
