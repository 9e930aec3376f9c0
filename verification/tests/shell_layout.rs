use herdr::copy_mode::{
    client_copy_surface_coherent, copy_search_highlight_cells, ClientCopyModeState, PaneHit, ScrollMetrics,
    TextMatch, TextPoint,
};
use herdr::geometry::{contains, popup, row, Rect};
use herdr::navigator::{client_navigator_rows, ClientNavigatorRow, ClientNavigatorTarget};
use herdr::navigator_ops::{
    accept_navigator_selection, move_navigator_selection, open_navigator_overlay,
    toggle_selected_navigator_workspace, workspace_action_id,
};
use herdr::overlay::{ClientNavigatorFilter, ClientNavigatorOverlay};
use herdr::sidebar::{parent_group_key, workspace_entries, WorkspaceEntry};
use herdr::snapshot::{
    ClientShellAgent, ClientShellPane, ClientShellSnapshot, ClientShellTab, ClientShellWorkspace,
    ClientShellWorktree,
};
use herdr::status::AgentStatus;

fn workspace(id: &str, label: &str, worktree: Option<(&str, bool)>, focused: bool) -> ClientShellWorkspace {
    ClientShellWorkspace {
        workspace_id: id.into(),
        number: 1,
        label: label.into(),
        custom_label: false,
        branch: None,
        git_ahead_behind: None,
        tokens: Vec::new(),
        worktree: worktree.map(|(key, linked)| ClientShellWorktree {
            key: key.into(),
            label: key.into(),
            is_linked_worktree: linked,
        }),
        focused,
        agent_status: AgentStatus::Idle,
    }
}

fn snapshot(workspaces: Vec<ClientShellWorkspace>) -> ClientShellSnapshot {
    ClientShellSnapshot {
        boot_id: "boot".into(),
        revision: 1,
        focused_workspace_id: None,
        focused_tab_id: None,
        focused_pane_id: None,
        workspaces,
        tabs: Vec::new(),
        panes: Vec::new(),
        agents: Vec::new(),
    }
}

fn entry(index: usize, indented: bool, last_child: bool) -> WorkspaceEntry {
    WorkspaceEntry { index, indented, last_child }
}

#[test]
fn rect_clamps_its_extent_and_saturates_its_edges() {
    let r = Rect::new(65_530, 10, 20, 5);
    assert_eq!(r.width, 5);
    assert_eq!(r.right(), 65_535);
    assert_eq!(r.bottom(), 15);
    assert!(!r.is_empty());
    assert!(Rect::new(3, 3, 0, 4).is_empty());
}

#[test]
fn contains_excludes_the_far_edges_and_empty_rects() {
    let r = Rect::new(2, 3, 4, 2);
    assert!(contains(r, (2, 3)));
    assert!(contains(r, (5, 4)));
    assert!(!contains(r, (6, 4)));
    assert!(!contains(r, (5, 5)));
    assert!(!contains(Rect::new(2, 3, 0, 2), (2, 3)));
}

#[test]
fn popup_is_centred_with_a_margin() {
    let area = Rect::new(0, 0, 80, 24);
    assert_eq!(popup(area, 56, 7), Some(Rect::new(12, 8, 56, 7)));
    assert_eq!(popup(area, 100, 100), Some(Rect::new(2, 1, 76, 22)));
    assert_eq!(popup(Rect::new(0, 0, 7, 24), 56, 7), None);
    assert_eq!(popup(Rect::new(0, 0, 80, 5), 56, 7), None);
}

#[test]
fn row_centres_buttons_and_cuts_at_the_right_edge() {
    let inner = Rect::new(10, 5, 40, 5);
    let buttons = row(inner, &[8, 10, 12], 2, 3);
    assert_eq!(
        buttons,
        vec![Rect::new(13, 8, 8, 1), Rect::new(23, 8, 10, 1), Rect::new(35, 8, 12, 1)]
    );
    let narrow = Rect::new(0, 0, 10, 2);
    let buttons = row(narrow, &[8, 10], 2, 9);
    assert_eq!(buttons, vec![Rect::new(0, 1, 8, 1), Rect::new(10, 1, 0, 1)]);
    assert!(row(inner, &[], 2, 0).is_empty());
}

#[test]
fn ungrouped_workspaces_keep_their_order() {
    let s = snapshot(vec![
        workspace("a", "a", None, false),
        workspace("b", "b", Some(("repo", false)), false),
        workspace("c", "c", None, false),
    ]);
    assert_eq!(
        workspace_entries(&s, &[]),
        vec![entry(0, false, false), entry(1, false, false), entry(2, false, false)]
    );
    assert_eq!(parent_group_key(&s, 1), None);
}

#[test]
fn linked_worktrees_hang_under_their_main_checkout() {
    let s = snapshot(vec![
        workspace("w1", "feature", Some(("repo", true)), false),
        workspace("w2", "other", None, false),
        workspace("w3", "main", Some(("repo", false)), false),
        workspace("w4", "fix", Some(("repo", true)), true),
    ]);
    assert_eq!(
        workspace_entries(&s, &[]),
        vec![entry(2, false, false), entry(0, true, false), entry(3, true, true), entry(1, false, false)]
    );
    assert_eq!(parent_group_key(&s, 2), Some("repo".to_string()));
    assert_eq!(parent_group_key(&s, 0), None);
    assert_eq!(parent_group_key(&s, 9), None);
}

#[test]
fn a_collapsed_group_keeps_only_its_focused_worktree() {
    let s = snapshot(vec![
        workspace("w1", "main", Some(("repo", false)), false),
        workspace("w2", "feature", Some(("repo", true)), false),
        workspace("w3", "fix", Some(("repo", true)), true),
    ]);
    assert_eq!(
        workspace_entries(&s, &["repo".to_string()]),
        vec![entry(0, false, false), entry(2, true, true)]
    );
    let quiet = snapshot(vec![
        workspace("w1", "main", Some(("repo", false)), true),
        workspace("w2", "feature", Some(("repo", true)), false),
    ]);
    assert_eq!(workspace_entries(&quiet, &["repo".to_string()]), vec![entry(0, false, false)]);
}

#[test]
fn a_group_without_its_main_checkout_is_not_grouped() {
    let s = snapshot(vec![
        workspace("w1", "feature", Some(("repo", true)), false),
        workspace("w2", "fix", Some(("repo", true)), false),
    ]);
    assert_eq!(workspace_entries(&s, &[]), vec![entry(0, false, false), entry(1, false, false)]);
}

fn tab(id: &str, ws: &str, label: &str, status: AgentStatus) -> ClientShellTab {
    ClientShellTab {
        tab_id: id.into(),
        workspace_id: ws.into(),
        number: 1,
        label: label.into(),
        custom_label: false,
        zoomed: false,
        focused: false,
        agent_status: status,
    }
}

fn pane(id: &str, ws: &str, tab: &str, label: Option<&str>, cwd: Option<&str>) -> ClientShellPane {
    ClientShellPane {
        pane_id: id.into(),
        workspace_id: ws.into(),
        tab_id: tab.into(),
        label: label.map(Into::into),
        cwd: cwd.map(Into::into),
        foreground_cwd: None,
        focused: false,
        right_click_passthrough: false,
    }
}

fn navigator(query: &str, filter: Option<ClientNavigatorFilter>, expanded: &[&str]) -> ClientNavigatorOverlay {
    ClientNavigatorOverlay {
        query: query.into(),
        search_focused: false,
        selected: 0,
        scroll: 0,
        filter,
        expanded_workspaces: expanded.iter().map(|s| s.to_string()).collect(),
    }
}

fn session() -> ClientShellSnapshot {
    let mut s = snapshot(vec![
        workspace("w1", "Alpha", None, true),
        workspace("w2", "Beta", None, false),
    ]);
    s.workspaces[1].branch = Some("feature/x".into());
    s.focused_workspace_id = Some("w1".into());
    s.focused_tab_id = Some("t1".into());
    s.focused_pane_id = Some("p2".into());
    s.tabs = vec![
        tab("t1", "w1", "editor", AgentStatus::Idle),
        tab("t2", "w2", "build", AgentStatus::Working),
    ];
    s.panes = vec![
        pane("p1", "w1", "t1", None, Some("/src")),
        pane("p2", "w1", "t1", Some("logs"), None),
        pane("p3", "w2", "t2", None, None),
    ];
    s.agents = vec![ClientShellAgent {
        pane_id: "p1".into(),
        workspace_id: "w1".into(),
        tab_id: "t1".into(),
        name: None,
        display_agent: Some("codex".into()),
        agent: None,
        title: None,
        agent_status: AgentStatus::Working,
        focused: false,
    }];
    s
}

fn summary(rows: &[ClientNavigatorRow]) -> Vec<(u8, String, String, bool)> {
    rows.iter()
        .map(|r| (r.depth, r.label.clone(), r.meta.clone(), r.current))
        .collect()
}

#[test]
fn navigator_lists_workspaces_and_expands_only_the_chosen_ones() {
    let s = session();
    let rows = client_navigator_rows(&s, &navigator("", None, &["w1"]));
    assert_eq!(
        summary(&rows),
        vec![
            (0, "Alpha".to_string(), String::new(), true),
            (1, "editor".to_string(), "2 panes".to_string(), true),
            (2, "codex".to_string(), "/src".to_string(), false),
            (2, "logs".to_string(), String::new(), true),
            (0, "Beta".to_string(), "feature/x".to_string(), false),
        ]
    );
    assert_eq!(rows[2].status, AgentStatus::Working);
    assert_eq!(rows[3].status, AgentStatus::Unknown);
    assert!(matches!(&rows[3].target, ClientNavigatorTarget::Pane(id) if id == "p2"));
    assert!(matches!(&rows[4].target, ClientNavigatorTarget::Workspace(id) if id == "w2"));
}

#[test]
fn navigator_query_is_trimmed_lowercased_and_keeps_the_path_to_a_match() {
    let s = session();
    let rows = client_navigator_rows(&s, &navigator("  LOGS ", None, &[]));
    assert_eq!(
        summary(&rows),
        vec![
            (0, "Alpha".to_string(), String::new(), true),
            (1, "editor".to_string(), "2 panes".to_string(), true),
            (2, "logs".to_string(), String::new(), true),
        ]
    );
    let rows = client_navigator_rows(&s, &navigator("feature", None, &[]));
    assert_eq!(summary(&rows), vec![(0, "Beta".to_string(), "feature/x".to_string(), false)]);
}

#[test]
fn navigator_status_filter_keeps_matching_panes_and_tabs() {
    let s = session();
    let rows = client_navigator_rows(&s, &navigator("", Some(ClientNavigatorFilter::Working), &[]));
    assert_eq!(
        summary(&rows),
        vec![
            (0, "Alpha".to_string(), String::new(), true),
            (1, "editor".to_string(), "2 panes".to_string(), true),
            (2, "codex".to_string(), "/src".to_string(), false),
            (0, "Beta".to_string(), "feature/x".to_string(), false),
            (1, "build".to_string(), "1 panes".to_string(), false),
        ]
    );
    let rows = client_navigator_rows(&s, &navigator("", Some(ClientNavigatorFilter::Blocked), &[]));
    assert!(rows.is_empty());
}

#[test]
fn navigator_numbers_unlabelled_panes_within_their_tab() {
    let mut s = session();
    s.agents.clear();
    let rows = client_navigator_rows(&s, &navigator("", None, &["w1", "w2"]));
    let labels: Vec<&str> = rows.iter().map(|r| r.label.as_str()).collect();
    assert_eq!(labels, vec!["Alpha", "editor", "pane 1", "logs", "Beta", "build", "pane 1"]);
}

fn hit(scroll: Option<ScrollMetrics>) -> PaneHit {
    PaneHit {
        rect: Rect::new(0, 0, 12, 6),
        inner_rect: Rect::new(1, 1, 10, 4),
        pane_id: "p1".into(),
        mouse_reporting: false,
        sgr_pixel_mouse: false,
        pixel_width: 0,
        pixel_height: 0,
        scroll,
    }
}

fn copy_mode(matches: Vec<TextMatch>, current: Option<usize>) -> ClientCopyModeState {
    ClientCopyModeState {
        pane_id: "p1".into(),
        geometry: (10, 4),
        offset_from_bottom: 5,
        max_offset_from_bottom: 20,
        search_matches: matches,
        search_current: current,
    }
}

fn text_match(start: (u32, u16), end: (u32, u16)) -> TextMatch {
    TextMatch {
        start: TextPoint { row: start.0, col: start.1 },
        end: TextPoint { row: end.0, col: end.1 },
    }
}

#[test]
fn copy_surface_is_coherent_only_at_copy_modes_size_and_scroll() {
    let state = copy_mode(Vec::new(), None);
    let at = ScrollMetrics { offset_from_bottom: 5, max_offset_from_bottom: 20 };
    assert!(client_copy_surface_coherent(Some(&state), &hit(Some(at))));
    assert!(!client_copy_surface_coherent(Some(&state), &hit(None)));
    let moved = ScrollMetrics { offset_from_bottom: 4, max_offset_from_bottom: 20 };
    assert!(!client_copy_surface_coherent(Some(&state), &hit(Some(moved))));
    let mut resized = hit(Some(at));
    resized.inner_rect = Rect::new(1, 1, 9, 4);
    assert!(!client_copy_surface_coherent(Some(&state), &resized));
    let mut other = hit(None);
    other.pane_id = "p2".into();
    assert!(client_copy_surface_coherent(Some(&state), &other));
    assert!(client_copy_surface_coherent(None, &hit(None)));
}

#[test]
fn search_highlights_cover_the_visible_part_of_each_match() {
    // The view shows absolute rows 15..=18.
    let state = copy_mode(
        vec![text_match((14, 3), (15, 1)), text_match((17, 8), (19, 0)), text_match((30, 0), (30, 2))],
        Some(1),
    );
    let others = copy_search_highlight_cells(Some(&state), &hit(None), false);
    assert_eq!(others, vec![(1, 1), (2, 1)]);
    let current = copy_search_highlight_cells(Some(&state), &hit(None), true);
    assert_eq!(current, vec![(9, 3), (10, 3), (1, 4), (2, 4), (3, 4), (4, 4), (5, 4), (6, 4), (7, 4), (8, 4), (9, 4), (10, 4)]);
    let mut other = hit(None);
    other.pane_id = "p2".into();
    assert!(copy_search_highlight_cells(Some(&state), &other, false).is_empty());
}

use herdr::layout::{
    focused_tab_count, surface_size, ClientShellLayoutConfig, ClientSurfaceSize, SidebarBounds,
    SidebarCollapsedModeConfig, TabBarPositionConfig,
};

fn chrome() -> ClientShellLayoutConfig {
    ClientShellLayoutConfig {
        sidebar_width: 26,
        sidebar_bounds: Some(SidebarBounds { min: 18, max: 36 }),
        sidebar_start_collapsed: false,
        sidebar_collapsed_mode: SidebarCollapsedModeConfig::Compact,
        mobile_width_threshold: 60,
        tab_bar_position: TabBarPositionConfig::Top,
        hide_tab_bar_when_single_tab: false,
    }
}

#[test]
fn desktop_layout_splits_sidebar_tab_bar_and_surface() {
    let l = chrome().layout(120, 40, false, 3);
    assert_eq!(l.sidebar, Rect::new(0, 0, 26, 40));
    assert_eq!(l.tab_bar, Rect::new(26, 0, 94, 1));
    assert_eq!(l.pane_surface, Rect::new(26, 1, 94, 39));
    assert!(l.mobile_header.is_empty());
    let collapsed = chrome().layout(120, 40, true, 3);
    assert_eq!(collapsed.sidebar.width, 4);
    let mut bottom = chrome();
    bottom.tab_bar_position = TabBarPositionConfig::Bottom;
    bottom.hide_tab_bar_when_single_tab = true;
    let l = bottom.layout(120, 40, false, 1);
    assert_eq!(l.tab_bar, Rect::new(26, 40, 94, 0));
    assert_eq!(l.pane_surface, Rect::new(26, 0, 94, 40));
    let l = bottom.layout(120, 40, false, 2);
    assert_eq!(l.tab_bar, Rect::new(26, 39, 94, 1));
}

#[test]
fn sidebar_width_is_kept_in_range() {
    let mut c = chrome();
    c.sidebar_width = 80;
    assert_eq!(c.layout(120, 40, false, 1).sidebar.width, 36);
    c.sidebar_width = 2;
    c.sidebar_bounds = None;
    assert_eq!(c.layout(120, 40, false, 1).sidebar.width, 18);
}

#[test]
fn narrow_terminals_get_a_header_above_the_surface() {
    let l = chrome().layout(50, 30, false, 2);
    assert_eq!(l.mobile_header, Rect::new(0, 0, 50, 2));
    assert_eq!(l.pane_surface, Rect::new(0, 2, 50, 28));
    assert!(l.sidebar.is_empty());
    assert_eq!(chrome().initial_surface_size(50, 1), ClientSurfaceSize { cols: 50, rows: 1 });
}

#[test]
fn surface_size_counts_the_focused_workspaces_tabs() {
    let mut s = snapshot(vec![workspace("w1", "a", None, true), workspace("w2", "b", None, false)]);
    s.focused_workspace_id = Some("w1".into());
    s.tabs = vec![tab("t1", "w1", "x", AgentStatus::Idle), tab("t2", "w2", "y", AgentStatus::Idle)];
    assert_eq!(focused_tab_count(Some(&s)), 1);
    assert_eq!(focused_tab_count(None), 0);
    let mut c = chrome();
    c.hide_tab_bar_when_single_tab = true;
    assert_eq!(surface_size(&c, 120, 40, false, Some(&s)), ClientSurfaceSize { cols: 94, rows: 40 });
    assert_eq!(surface_size(&c, 120, 40, false, None), ClientSurfaceSize { cols: 94, rows: 39 });
    assert_eq!(c.initial_surface_size(120, 40), ClientSurfaceSize { cols: 94, rows: 39 });
}

use herdr::workspace_tokens::{workspace_rows, SidebarTokenStyle, SpaceSidebarToken, WorkspaceTokenKind};

fn texts(rows: &[Vec<herdr::workspace_tokens::WorkspaceToken>]) -> Vec<Vec<String>> {
    rows.iter().map(|r| r.iter().map(|t| t.text.clone()).collect()).collect()
}

#[test]
fn workspace_rows_show_the_configured_tokens() {
    let mut w = workspace("w1", "api", None, true);
    w.branch = Some("worktree/fix-login".into());
    w.git_ahead_behind = Some((2, 0));
    w.tokens = vec![("ci".into(), "red".into()), ("ci".into(), "green".into())];
    w.agent_status = AgentStatus::Working;
    let bold = SidebarTokenStyle { fg: Some(0xff8800), bold: Some(true), dim: None };
    let rows = vec![
        vec![SpaceSidebarToken::StateIcon, SpaceSidebarToken::Workspace],
        vec![
            SpaceSidebarToken::Branch,
            SpaceSidebarToken::GitStatus,
            SpaceSidebarToken::Styled { token: Box::new(SpaceSidebarToken::Custom("ci".into())), style: bold },
        ],
        vec![SpaceSidebarToken::Custom("missing".into())],
        vec![SpaceSidebarToken::StateText],
    ];
    let shown = workspace_rows(&w, false, &rows);
    assert_eq!(
        texts(&shown),
        vec![
            vec!["\u{25cf}".to_string(), "api".to_string()],
            vec!["worktree/fix-login".to_string(), "\u{2191}2 \u{2193}0".to_string(), "green".to_string()],
            vec!["working".to_string()],
        ]
    );
    assert_eq!(shown[1][2].kind, WorkspaceTokenKind::Custom);
    assert_eq!(shown[1][2].style, bold);
    assert_eq!(shown[0][0].kind, WorkspaceTokenKind::StateIcon);

    let indented = workspace_rows(&w, true, &rows);
    assert_eq!(
        texts(&indented),
        vec![
            vec!["\u{25cf}".to_string(), "fix-login".to_string()],
            vec!["green".to_string()],
            vec!["working".to_string()],
        ]
    );
    w.custom_label = true;
    w.git_ahead_behind = Some((0, 0));
    let named = workspace_rows(&w, false, &rows);
    assert_eq!(texts(&named)[0][1], "api");
    assert_eq!(texts(&named)[1], vec!["worktree/fix-login".to_string(), "green".to_string()]);
}

use herdr::tab_bar::tab_bar_layout;

#[test]
fn tab_bar_centres_names_and_keeps_room_for_the_new_tab_button() {
    let mut s = snapshot(vec![workspace("w1", "a", None, true), workspace("w2", "b", None, false)]);
    s.focused_workspace_id = Some("w1".into());
    let mut zoomed = tab("t2", "w1", "two", AgentStatus::Idle);
    zoomed.zoomed = true;
    s.tabs = vec![tab("t1", "w1", "one", AgentStatus::Idle), tab("tx", "w2", "other", AgentStatus::Idle), zoomed];
    let bar = tab_bar_layout(Rect::new(0, 0, 40, 1), &s, 0);
    assert_eq!(bar.scroll, 0);
    let slots: Vec<(Rect, String, String)> =
        bar.tabs.iter().map(|t| (t.rect, t.tab_id.clone(), t.text.clone())).collect();
    assert_eq!(
        slots,
        vec![
            (Rect::new(0, 0, 8, 1), "t1".to_string(), "  one   ".to_string()),
            (Rect::new(9, 0, 9, 1), "t2".to_string(), "  two Z  ".to_string()),
        ]
    );
    assert_eq!(bar.new_tab, Some(Rect::new(19, 0, 3, 1)));

    let scrolled = tab_bar_layout(Rect::new(0, 0, 40, 1), &s, 5);
    assert_eq!(scrolled.scroll, 1);
    assert_eq!(scrolled.tabs.len(), 1);
    assert_eq!(scrolled.tabs[0].tab_id, "t2");

    let narrow = tab_bar_layout(Rect::new(0, 0, 10, 1), &s, 0);
    assert_eq!(narrow.tabs.len(), 1);
    assert_eq!(narrow.tabs[0].rect, Rect::new(0, 0, 7, 1));
    assert_eq!(narrow.tabs[0].text, "  one  ");
    assert_eq!(narrow.new_tab, Some(Rect::new(8, 0, 2, 1)));
}

use herdr::sidebar_layout::{collapsed_sidebar_layout, sidebar_layout};
use herdr::workspace_tokens::SpacesSidebarConfig;

#[test]
fn collapsed_sidebar_numbers_the_workspaces_above_its_toggle() {
    let mut s = snapshot(vec![
        workspace("w1", "a", None, true),
        workspace("w2", "b", None, false),
        workspace("w3", "c", None, false),
    ]);
    s.workspaces[1].number = 12;
    s.workspaces[1].agent_status = AgentStatus::Working;
    let layout = collapsed_sidebar_layout(Rect::new(0, 0, 4, 3), &s);
    let rows: Vec<(Rect, String, String)> =
        layout.rows.iter().map(|r| (r.rect, r.workspace_id.clone(), r.text.clone())).collect();
    assert_eq!(
        rows,
        vec![
            (Rect::new(0, 0, 3, 1), "w1".to_string(), "1 \u{25cb}".to_string()),
            (Rect::new(0, 1, 3, 1), "w2".to_string(), "12\u{25cf}".to_string()),
        ]
    );
    assert_eq!(layout.sidebar_toggle, Rect::new(1, 2, 1, 1));
}

#[test]
fn sidebar_lays_out_entries_footer_agents_and_toggle() {
    let mut s = snapshot(vec![
        workspace("w1", "main", Some(("repo", false)), true),
        workspace("w2", "feature", Some(("repo", true)), false),
        workspace("w3", "notes", None, false),
    ]);
    s.agents = vec![ClientShellAgent {
        pane_id: "p1".into(),
        workspace_id: "w1".into(),
        tab_id: "t1".into(),
        name: None,
        display_agent: None,
        agent: None,
        title: Some("vim".into()),
        agent_status: AgentStatus::Idle,
        focused: true,
    }];
    let config = SpacesSidebarConfig {
        rows: vec![vec![SpaceSidebarToken::StateIcon, SpaceSidebarToken::Workspace]],
        row_gap: 1,
    };
    let layout = sidebar_layout(Rect::new(0, 0, 26, 20), &s, &config, &[], 0);
    assert_eq!(layout.workspace_area, Rect::new(0, 0, 25, 10));
    assert_eq!(layout.body, Rect::new(0, 2, 25, 7));
    let rows: Vec<(usize, Rect, bool)> = layout
        .workspaces
        .iter()
        .map(|r| (r.entry.index, r.rect, r.group_toggle.is_some()))
        .collect();
    assert_eq!(
        rows,
        vec![(0, Rect::new(0, 2, 25, 1), true), (1, Rect::new(0, 4, 25, 1), false), (2, Rect::new(0, 6, 25, 1), false)]
    );
    let toggle = layout.workspaces[0].group_toggle.as_ref().unwrap();
    assert_eq!(toggle.rect, Rect::new(24, 2, 1, 1));
    assert_eq!(toggle.key, "repo");
    assert_eq!(layout.footer_y, 9);
    assert_eq!(layout.new_workspace, Rect::new(0, 9, 5, 1));
    assert_eq!(layout.detail_area, Rect::new(0, 10, 25, 10));
    assert_eq!(layout.agents.len(), 1);
    assert_eq!(layout.agents[0].rect, Rect::new(0, 13, 25, 1));
    assert_eq!(layout.agents[0].text, " \u{25cb}  vim");
    assert_eq!(layout.sidebar_toggle, Rect::new(24, 19, 1, 1));

    let scrolled = sidebar_layout(Rect::new(0, 0, 26, 20), &s, &config, &[], 9);
    assert_eq!(scrolled.workspace_scroll, 2);
    assert_eq!(scrolled.workspaces.len(), 1);
    assert_eq!(scrolled.workspaces[0].entry.index, 2);

    let short = sidebar_layout(Rect::new(0, 0, 26, 8), &s, &config, &[], 0);
    assert_eq!(short.workspace_area.height, 4);
    assert_eq!(short.body, Rect::new(0, 2, 25, 1));
    assert_eq!(short.workspaces.len(), 1);
    assert_eq!(short.agents.len(), 1);
    assert_eq!(short.agents[0].rect, Rect::new(0, 7, 25, 1));
    let tiny = sidebar_layout(Rect::new(0, 0, 26, 6), &s, &config, &[], 0);
    assert!(tiny.agents.is_empty());
}

use herdr::workspace_tokens::{workspace_row_segments, WorkspaceToken};

fn token(text: &str, kind: WorkspaceTokenKind) -> WorkspaceToken {
    WorkspaceToken { text: text.into(), kind, style: SidebarTokenStyle { fg: None, bold: None, dim: None } }
}

#[test]
fn workspace_rows_are_drawn_with_tree_prefixes_and_separators() {
    let tokens = vec![
        token("\u{25cf}", WorkspaceTokenKind::StateIcon),
        token("api", WorkspaceTokenKind::Workspace),
        token("main", WorkspaceTokenKind::Branch),
        token("\u{2191}1 \u{2193}0", WorkspaceTokenKind::GitStatus),
    ];
    let (lead, segments) = workspace_row_segments(false, false, 0, &tokens);
    assert_eq!(lead, 1);
    let texts: Vec<&str> = segments.iter().map(|s| s.text.as_str()).collect();
    assert_eq!(texts, vec!["\u{25cf}", " ", "api", " \u{00b7} ", "main", " ", "\u{2191}1 \u{2193}0"]);
    assert_eq!(segments[2].token, Some(1));
    assert_eq!(segments[1].token, None);
    let (lead, segments) = workspace_row_segments(false, false, 1, &tokens[1..2]);
    assert_eq!((lead, segments.len()), (3, 1));
    let (lead, segments) = workspace_row_segments(true, true, 0, &tokens[1..2]);
    assert_eq!(lead, 0);
    assert_eq!(segments[0].text, "   \u{2514}\u{2500} ");
    let (_, segments) = workspace_row_segments(true, false, 0, &[]);
    assert_eq!(segments[0].text, "   \u{251c}\u{2500} ");
    let (_, segments) = workspace_row_segments(true, false, 1, &[]);
    assert_eq!(segments[0].text, "   \u{2502}    ");
    let (_, segments) = workspace_row_segments(true, true, 1, &[]);
    assert_eq!(segments[0].text, "        ");
}

use herdr::navigator_overlay::navigator_overlay_layout;

#[test]
fn navigator_overlay_places_search_rows_detail_and_hints() {
    let s = session();
    let n = navigator("", None, &["w1"]);
    let layout = navigator_overlay_layout(Rect::new(0, 0, 80, 24), &n, &s).unwrap();
    assert_eq!(layout.popup, Rect::new(5, 2, 70, 20));
    assert_eq!(layout.inner, Rect::new(6, 3, 68, 18));
    assert_eq!(layout.body, Rect::new(6, 5, 68, 14));
    assert_eq!(layout.search_text, " / search panes");
    assert_eq!(layout.panes_text, "3 panes");
    assert_eq!(layout.scroll, 0);
    assert_eq!(layout.rows.len(), 5);
    assert_eq!(layout.rows[0].text, " \u{25c6} \u{25be} \u{25cb} Alpha");
    assert!(layout.rows[0].selected && layout.rows[0].meta.is_none());
    assert_eq!(layout.rows[1].text, " \u{25c6} \u{2514}\u{2500}\u{2500} \u{25cb} editor");
    assert_eq!(layout.rows[1].meta, Some(Rect::new(22, 6, 52, 1)));
    assert_eq!(layout.rows[4].text, "   \u{25b8} \u{25cb} Beta");
    assert_eq!(layout.detail.as_deref(), Some(" Alpha \u{00b7} "));
    assert!(layout.hint.starts_with(" move j/k"));
    assert_eq!(layout.cursor_x, None);

    let mut typing = navigator("lo", None, &[]);
    typing.search_focused = true;
    typing.selected = 7;
    let layout = navigator_overlay_layout(Rect::new(0, 0, 80, 24), &typing, &s).unwrap();
    assert_eq!(layout.search_text, " / lo");
    assert_eq!(layout.cursor_x, Some(11));
    assert!(layout.detail.is_none());
    assert!(layout.hint.starts_with(" search type"));
}

use herdr::layout::mobile_header_text;

#[test]
fn mobile_header_names_the_focused_workspace_and_tab() {
    let s = session();
    assert_eq!(mobile_header_text(&s), (" \u{2630}  Alpha".to_string(), "editor".to_string()));
    let empty = snapshot(Vec::new());
    assert_eq!(mobile_header_text(&empty), (" \u{2630}  Herdr".to_string(), "terminal".to_string()));
}

use herdr::dialogs::{confirm_close_layout, rename_overlay_layout, rename_overlay_layout_checked};
use herdr::input::{ClientRenameOverlay, ClientRenameTarget};
use herdr::overlay::ClientConfirmCloseOverlay;

#[test]
fn confirm_close_dialog_centres_its_buttons() {
    let dialog = ClientConfirmCloseOverlay {
        workspace_id: "w1".into(),
        title: "close workspace?".into(),
        detail: "2 panes are running".into(),
    };
    let layout = confirm_close_layout(Rect::new(0, 0, 80, 24), &dialog).unwrap();
    assert_eq!(layout.popup, Rect::new(8, 9, 64, 6));
    assert_eq!(layout.inner, Rect::new(9, 10, 62, 4));
    assert_eq!(layout.title, " close workspace?");
    assert_eq!(layout.detail, " 2 panes are running");
    assert_eq!(layout.confirm, Rect::new(26, 13, 13, 1));
    assert_eq!(layout.cancel, Rect::new(41, 13, 12, 1));
    assert!(confirm_close_layout(Rect::new(0, 0, 7, 24), &dialog).is_none());
}

#[test]
fn rename_prompt_places_input_buttons_and_cursor() {
    let dialog = ClientRenameOverlay {
        title: "rename tab",
        input: "abc".into(),
        replace_on_type: false,
        target: ClientRenameTarget::Workspace { workspace_id: "w1".into() },
    };
    let layout = rename_overlay_layout(Rect::new(0, 0, 80, 24), &dialog).unwrap();
    assert_eq!(layout.popup, Rect::new(12, 8, 56, 7));
    assert_eq!(layout.input, Rect::new(13, 11, 54, 1));
    assert_eq!(layout.input_text, " abc");
    assert_eq!((layout.save, layout.clear, layout.cancel), (Rect::new(23, 12, 8, 1), Rect::new(33, 12, 10, 1), Rect::new(45, 12, 12, 1)));
    assert_eq!(layout.cursor_x, 17);
    let long = ClientRenameOverlay { input: "x".repeat(100), ..dialog };
    let layout = rename_overlay_layout_checked(Rect::new(0, 0, 80, 24), &long).unwrap();
    assert_eq!(layout.cursor_x, 66);
}

use herdr::overlay::{ClientHelpOverlay, ClientShellOverlay};

#[test]
fn only_the_navigator_and_context_menus_leave_the_screen_undimmed() {
    let navigator = ClientShellOverlay::Navigator(navigator("", None, &[]));
    assert!(!navigator.dims_background());
    let help = ClientShellOverlay::Help(ClientHelpOverlay { query: String::new(), search_focused: false, scroll: 0 });
    assert!(help.dims_background());
}

fn session_on_beta() -> ClientShellSnapshot {
    let mut s = session();
    s.focused_workspace_id = Some("w2".into());
    s.focused_tab_id = Some("t2".into());
    s.focused_pane_id = Some("p3".into());
    s
}

#[test]
fn navigator_opens_expanded_on_the_current_row() {
    let s = session_on_beta();
    let nav = open_navigator_overlay(&s);
    assert_eq!(nav.expanded_workspaces, vec!["w1".to_string(), "w2".to_string()]);
    assert!(nav.query.is_empty());
    assert!(nav.filter.is_none());
    assert_eq!(nav.scroll, 0);
    let rows = client_navigator_rows(&s, &nav);
    assert_eq!(rows.len(), 7);
    assert_eq!(nav.selected, 4);
    assert!(rows[4].current);
    assert_eq!(open_navigator_overlay(&session()).selected, 0);
}

#[test]
fn navigator_selection_moves_within_the_rows() {
    let s = session_on_beta();
    let mut nav = open_navigator_overlay(&s);
    move_navigator_selection(&s, &mut nav, 1);
    assert_eq!(nav.selected, 5);
    move_navigator_selection(&s, &mut nav, 10);
    assert_eq!(nav.selected, 6);
    move_navigator_selection(&s, &mut nav, -100);
    assert_eq!(nav.selected, 0);
    let mut empty = navigator("zzz", None, &[]);
    empty.selected = 3;
    move_navigator_selection(&s, &mut empty, 1);
    assert_eq!(empty.selected, 0);
}

#[test]
fn navigator_folds_and_unfolds_the_selected_workspace() {
    let s = session();
    let mut nav = navigator("", None, &["w1", "w2"]);
    nav.scroll = 2;
    toggle_selected_navigator_workspace(&s, &mut nav);
    assert_eq!(nav.expanded_workspaces, vec!["w2".to_string()]);
    assert_eq!((nav.selected, nav.scroll), (0, 0));
    toggle_selected_navigator_workspace(&s, &mut nav);
    assert_eq!(nav.expanded_workspaces, vec!["w2".to_string(), "w1".to_string()]);
    // A tab row folds nothing.
    nav.selected = 1;
    nav.scroll = 1;
    toggle_selected_navigator_workspace(&s, &mut nav);
    assert_eq!(nav.expanded_workspaces, vec!["w2".to_string(), "w1".to_string()]);
    assert_eq!((nav.selected, nav.scroll), (1, 1));
}

#[test]
fn navigator_accepts_the_selected_target() {
    let s = session();
    let mut nav = navigator("", None, &["w1"]);
    nav.selected = 1;
    assert!(matches!(accept_navigator_selection(&s, &nav), Some(ClientNavigatorTarget::Tab(id)) if id == "t1"));
    nav.selected = 4;
    assert!(matches!(accept_navigator_selection(&s, &nav), Some(ClientNavigatorTarget::Workspace(id)) if id == "w2"));
    nav.selected = 5;
    assert!(accept_navigator_selection(&s, &nav).is_none());
}

#[test]
fn workspace_actions_prefer_the_navigated_workspace() {
    let s = session();
    assert_eq!(workspace_action_id(&Some("w9".into()), Some(&s)), Some("w9".to_string()));
    assert_eq!(workspace_action_id(&None, Some(&s)), Some("w1".to_string()));
    assert_eq!(workspace_action_id(&None, None), None);
}

use herdr::layout::set_sidebar_width_from_column;

#[test]
fn dragging_the_divider_sets_the_width_within_its_range() {
    let config = chrome();
    let mut width = 26;
    assert!(set_sidebar_width_from_column(&config, &mut width, 29));
    assert_eq!(width, 30);
    assert!(!set_sidebar_width_from_column(&config, &mut width, 29));
    assert!(set_sidebar_width_from_column(&config, &mut width, 3));
    assert_eq!(width, 18);
    assert!(set_sidebar_width_from_column(&config, &mut width, u16::MAX));
    assert_eq!(width, 36);
    let mut fallback = ClientShellLayoutConfig { sidebar_bounds: None, ..chrome() };
    fallback.sidebar_width = 20;
    let mut w = 20;
    assert!(set_sidebar_width_from_column(&fallback, &mut w, 50));
    assert_eq!(w, 36);
}
