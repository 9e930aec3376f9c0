//! How the client shell divides the terminal: sidebar, tab bar and the pane
//! surface, or a header above the surface on a narrow (mobile) terminal.
use vstd::prelude::*;

use crate::geometry::{spec_rect, Rect};
use crate::snapshot::{opt_view, ClientShellSnapshot};
use crate::text::{concat, str_equal};

verus! {

/// What a collapsed sidebar keeps on screen.
#[derive(Clone, Copy, Debug, PartialEq, Eq, Structural)]
pub enum SidebarCollapsedModeConfig {
    /// A narrow strip of workspace numbers.
    Compact,
    /// Nothing.
    Hidden,
}

/// Where the tab bar sits.
#[derive(Clone, Copy, Debug, PartialEq, Eq, Structural)]
pub enum TabBarPositionConfig {
    Top,
    Bottom,
}

/// The range an expanded sidebar's width is kept in.
#[derive(Clone, Copy, Debug, PartialEq, Eq, Structural)]
pub struct SidebarBounds {
    pub min: u16,
    pub max: u16,
}

/// The configured chrome of the client shell.
#[derive(Clone, Copy, Debug)]
pub struct ClientShellLayoutConfig {
    pub sidebar_width: u16,
    /// The validated width range of the sidebar; `None` when the configured range
    /// was rejected, in which case 18 to 36 columns apply.
    pub sidebar_bounds: Option<SidebarBounds>,
    pub sidebar_start_collapsed: bool,
    pub sidebar_collapsed_mode: SidebarCollapsedModeConfig,
    /// At or below this many columns the shell uses its mobile layout.
    pub mobile_width_threshold: u16,
    pub tab_bar_position: TabBarPositionConfig,
    pub hide_tab_bar_when_single_tab: bool,
}

impl ClientShellLayoutConfig {
    /// A validated width range is ordered.
    pub open spec fn wf(self) -> bool {
        match self.sidebar_bounds {
            Some(b) => b.min <= b.max,
            None => true,
        }
    }
}

/// Where each part of the shell goes; a part that is not shown is the empty
/// rectangle at the origin.
#[derive(Clone, Copy, Debug, PartialEq, Eq, Structural)]
pub struct ClientShellLayout {
    pub sidebar: Rect,
    pub tab_bar: Rect,
    pub mobile_header: Rect,
    pub pane_surface: Rect,
}

/// The size, in cells, the pane surface asks the endpoint for.
#[derive(Clone, Copy, Debug, PartialEq, Eq, Structural)]
pub struct ClientSurfaceSize {
    pub cols: u16,
    pub rows: u16,
}

pub open spec fn zero_rect() -> Rect {
    Rect { x: 0, y: 0, width: 0, height: 0 }
}

pub open spec fn min16(a: u16, b: u16) -> u16 {
    if a < b {
        a
    } else {
        b
    }
}

pub open spec fn sub16(a: u16, b: u16) -> u16 {
    if a < b {
        0
    } else {
        (a - b) as u16
    }
}

/// The width of the sidebar on a terminal `cols` wide: a collapsed sidebar is a
/// four-column strip or nothing; an expanded one keeps its width in its range. It
/// never takes the last column.
pub open spec fn sidebar_width(c: ClientShellLayoutConfig, cols: u16, sidebar_collapsed: bool) -> u16 {
    let wanted: u16 = if sidebar_collapsed {
        match c.sidebar_collapsed_mode {
            SidebarCollapsedModeConfig::Compact => 4,
            SidebarCollapsedModeConfig::Hidden => 0,
        }
    } else {
        let (lo, hi) = match c.sidebar_bounds {
            Some(b) => (b.min, b.max),
            None => (18u16, 36u16),
        };
        if c.sidebar_width < lo {
            lo
        } else if c.sidebar_width > hi {
            hi
        } else {
            c.sidebar_width
        }
    };
    min16(wanted, sub16(cols, 1))
}

/// Whether the tab bar is shown: there must be a row to spare, and a lone tab
/// hides it when so configured.
pub open spec fn shows_tab_bar(c: ClientShellLayoutConfig, rows: u16, tab_count: usize) -> bool {
    rows > 1 && !(c.hide_tab_bar_when_single_tab && tab_count == 1)
}

/// The layout of a terminal of `cols` by `rows` cells.
pub open spec fn spec_layout(
    c: ClientShellLayoutConfig,
    cols: u16,
    rows: u16,
    sidebar_collapsed: bool,
    tab_count: usize,
) -> ClientShellLayout {
    if cols <= c.mobile_width_threshold {
        let header = min16(rows, 2);
        ClientShellLayout {
            sidebar: zero_rect(),
            tab_bar: zero_rect(),
            mobile_header: spec_rect(0, 0, cols, header),
            pane_surface: spec_rect(0, header, cols, sub16(rows, header)),
        }
    } else {
        let sw = sidebar_width(c, cols, sidebar_collapsed);
        let main = spec_rect(sw, 0, sub16(cols, sw), rows);
        let th: u16 = if shows_tab_bar(c, rows, tab_count) {
            1
        } else {
            0
        };
        let (tab_bar, pane_surface) = match c.tab_bar_position {
            TabBarPositionConfig::Top => (
                spec_rect(main.x, 0, main.width, th),
                spec_rect(main.x, th, main.width, sub16(rows, th)),
            ),
            TabBarPositionConfig::Bottom => (
                spec_rect(main.x, sub16(rows, th), main.width, th),
                spec_rect(main.x, 0, main.width, sub16(rows, th)),
            ),
        };
        ClientShellLayout { sidebar: spec_rect(0, 0, sw, rows), tab_bar, mobile_header: zero_rect(), pane_surface }
    }
}

/// The pane surface's size in `layout`, at least one cell each way.
pub open spec fn surface_size_of(layout: ClientShellLayout) -> ClientSurfaceSize {
    ClientSurfaceSize {
        cols: if layout.pane_surface.width > 1 {
            layout.pane_surface.width
        } else {
            1
        },
        rows: if layout.pane_surface.height > 1 {
            layout.pane_surface.height
        } else {
            1
        },
    }
}

impl ClientShellLayoutConfig {
    /// The layout of a terminal of `cols` by `rows` cells with `tab_count` tabs in
    /// the focused workspace.
    pub fn layout(&self, cols: u16, rows: u16, sidebar_collapsed: bool, tab_count: usize) -> (r: ClientShellLayout)
        requires
            self.wf(),
        ensures
            r == spec_layout(*self, cols, rows, sidebar_collapsed, tab_count),
    {
        if cols <= self.mobile_width_threshold {
            let header = if rows < 2 {
                rows
            } else {
                2
            };
            return ClientShellLayout {
                sidebar: Rect { x: 0, y: 0, width: 0, height: 0 },
                tab_bar: Rect { x: 0, y: 0, width: 0, height: 0 },
                mobile_header: Rect::new(0, 0, cols, header),
                pane_surface: Rect::new(0, header, cols, rows.saturating_sub(header)),
            };
        }
        let wanted: u16 = if sidebar_collapsed {
            match self.sidebar_collapsed_mode {
                SidebarCollapsedModeConfig::Compact => 4,
                SidebarCollapsedModeConfig::Hidden => 0,
            }
        } else {
            let (lo, hi) = match self.sidebar_bounds {
                Some(b) => (b.min, b.max),
                None => (18u16, 36u16),
            };
            if self.sidebar_width < lo {
                lo
            } else if self.sidebar_width > hi {
                hi
            } else {
                self.sidebar_width
            }
        };
        let last = cols.saturating_sub(1);
        let sw = if wanted < last {
            wanted
        } else {
            last
        };
        let main = Rect::new(sw, 0, cols.saturating_sub(sw), rows);
        let show_tab_bar = rows > 1 && !(self.hide_tab_bar_when_single_tab && tab_count == 1);
        let th: u16 = if show_tab_bar {
            1
        } else {
            0
        };
        let (tab_bar, pane_surface) = match self.tab_bar_position {
            TabBarPositionConfig::Top => (
                Rect::new(main.x, 0, main.width, th),
                Rect::new(main.x, th, main.width, rows.saturating_sub(th)),
            ),
            TabBarPositionConfig::Bottom => (
                Rect::new(main.x, rows.saturating_sub(th), main.width, th),
                Rect::new(main.x, 0, main.width, rows.saturating_sub(th)),
            ),
        };
        ClientShellLayout { sidebar: Rect::new(0, 0, sw, rows), tab_bar, mobile_header: Rect { x: 0, y: 0, width: 0, height: 0 }, pane_surface }
    }

    /// The surface size to ask for before the first snapshot: the sidebar as it
    /// starts, no tabs yet.
    pub fn initial_surface_size(&self, cols: u16, rows: u16) -> (r: ClientSurfaceSize)
        requires
            self.wf(),
        ensures
            r == surface_size_of(spec_layout(*self, cols, rows, self.sidebar_start_collapsed, 0)),
    {
        let surface = self.layout(cols, rows, self.sidebar_start_collapsed, 0).pane_surface;
        ClientSurfaceSize {
            cols: if surface.width > 1 {
                surface.width
            } else {
                1
            },
            rows: if surface.height > 1 {
                surface.height
            } else {
                1
            },
        }
    }
}

/// How many of the first `k` tabs belong to the workspace `focused`.
pub open spec fn focused_tabs(s: ClientShellSnapshot, focused: Option<Seq<char>>, k: int) -> nat
    decreases k,
{
    if k <= 0 {
        0
    } else {
        focused_tabs(s, focused, k - 1) + if focused == Some(s.tabs@[k - 1].workspace_id@) {
            1nat
        } else {
            0nat
        }
    }
}

/// How many tabs the focused workspace has; none without a snapshot.
pub open spec fn spec_focused_tab_count(snapshot: Option<ClientShellSnapshot>) -> nat {
    match snapshot {
        Some(s) => focused_tabs(s, opt_view(s.focused_workspace_id), s.tabs@.len() as int),
        None => 0,
    }
}

/// How many tabs the focused workspace has; none without a snapshot.
pub fn focused_tab_count(snapshot: Option<&ClientShellSnapshot>) -> (r: usize)
    ensures
        r == spec_focused_tab_count(
            match snapshot {
                Some(s) => Some(*s),
                None => None,
            },
        ),
{
    let s = match snapshot {
        Some(s) => s,
        None => return 0,
    };
    let mut count: usize = 0;
    let mut i: usize = 0;
    while i < s.tabs.len()
        invariant
            i <= s.tabs@.len(),
            count <= i,
            count == focused_tabs(*s, opt_view(s.focused_workspace_id), i as int),
        decreases s.tabs@.len() - i,
    {
        let hit = match &s.focused_workspace_id {
            Some(f) => str_equal(f.as_str(), s.tabs[i].workspace_id.as_str()),
            None => false,
        };
        if hit {
            count = count + 1;
        }
        i = i + 1;
    }
    count
}

/// The surface size of the shell's current layout: at least one cell each way.
pub fn surface_size(
    config: &ClientShellLayoutConfig,
    cols: u16,
    rows: u16,
    sidebar_collapsed: bool,
    snapshot: Option<&ClientShellSnapshot>,
) -> (r: ClientSurfaceSize)
    requires
        config.wf(),
    ensures
        r == surface_size_of(
            spec_layout(
                *config,
                cols,
                rows,
                sidebar_collapsed,
                spec_focused_tab_count(
                    match snapshot {
                        Some(s) => Some(*s),
                        None => None,
                    },
                ) as usize,
            ),
        ),
{
    let tabs = focused_tab_count(snapshot);
    let surface = config.layout(cols, rows, sidebar_collapsed, tabs).pane_surface;
    ClientSurfaceSize {
        cols: if surface.width > 1 {
            surface.width
        } else {
            1
        },
        rows: if surface.height > 1 {
            surface.height
        } else {
            1
        },
    }
}

/// The layout tiles the terminal: on a wide terminal the sidebar and the main area
/// split the columns with nothing left over and the sidebar never takes the last
/// column, and the tab bar and the pane surface split the rows; on a narrow one the
/// header and the surface split the rows.
pub proof fn lemma_layout_tiles_the_terminal(
    c: ClientShellLayoutConfig,
    cols: u16,
    rows: u16,
    sidebar_collapsed: bool,
    tab_count: usize,
)
    ensures
        ({
            let l = spec_layout(c, cols, rows, sidebar_collapsed, tab_count);
            if cols <= c.mobile_width_threshold {
                &&& l.mobile_header.height + l.pane_surface.height == rows
                &&& l.pane_surface.y == l.mobile_header.height
                &&& l.pane_surface.width == cols
            } else {
                &&& l.sidebar.width + l.pane_surface.width == cols
                &&& l.pane_surface.x == l.sidebar.width
                &&& l.tab_bar.width == l.pane_surface.width
                &&& l.tab_bar.height + l.pane_surface.height == rows
                &&& l.sidebar.width < cols
                &&& l.sidebar.height == rows
            }
        }),
{
}

/// The label of the first workspace whose id is `id`.
pub open spec fn workspace_label(ws: Seq<crate::snapshot::ClientShellWorkspace>, id: Seq<char>) -> Option<Seq<char>>
    decreases ws.len(),
{
    if ws.len() == 0 {
        None
    } else if ws[0].workspace_id@ == id {
        Some(ws[0].label@)
    } else {
        workspace_label(ws.drop_first(), id)
    }
}

/// The label of the first tab whose id is `id`.
pub open spec fn tab_label(tabs: Seq<crate::snapshot::ClientShellTab>, id: Seq<char>) -> Option<Seq<char>>
    decreases tabs.len(),
{
    if tabs.len() == 0 {
        None
    } else if tabs[0].tab_id@ == id {
        Some(tabs[0].label@)
    } else {
        tab_label(tabs.drop_first(), id)
    }
}

/// The two lines of the mobile header: the menu glyph and the focused workspace's
/// label ("Herdr" without one), and the focused tab's label ("terminal" without
/// one).
pub open spec fn spec_mobile_header(s: ClientShellSnapshot) -> (Seq<char>, Seq<char>) {
    let workspace = match opt_view(s.focused_workspace_id) {
        Some(id) => match workspace_label(s.workspaces@, id) {
            Some(l) => l,
            None => "Herdr"@,
        },
        None => "Herdr"@,
    };
    let tab = match opt_view(s.focused_tab_id) {
        Some(id) => match tab_label(s.tabs@, id) {
            Some(l) => l,
            None => "terminal"@,
        },
        None => "terminal"@,
    };
    (" \u{2630}  "@ + workspace, tab)
}

fn find_workspace_label(ws: &Vec<crate::snapshot::ClientShellWorkspace>, id: &str) -> (r: Option<String>)
    ensures
        match r {
            Some(l) => workspace_label(ws@, id@) == Some(l@),
            None => workspace_label(ws@, id@) is None,
        },
{
    let mut i: usize = 0;
    assert(ws@.subrange(0, ws@.len() as int) =~= ws@);
    while i < ws.len()
        invariant
            i <= ws@.len(),
            workspace_label(ws@, id@) == workspace_label(ws@.subrange(i as int, ws@.len() as int), id@),
        decreases ws@.len() - i,
    {
        assert(ws@.subrange(i as int, ws@.len() as int).drop_first() =~= ws@.subrange(i + 1, ws@.len() as int));
        if str_equal(ws[i].workspace_id.as_str(), id) {
            return Some(ws[i].label.clone());
        }
        i = i + 1;
    }
    None
}

fn find_tab_label(tabs: &Vec<crate::snapshot::ClientShellTab>, id: &str) -> (r: Option<String>)
    ensures
        match r {
            Some(l) => tab_label(tabs@, id@) == Some(l@),
            None => tab_label(tabs@, id@) is None,
        },
{
    let mut i: usize = 0;
    assert(tabs@.subrange(0, tabs@.len() as int) =~= tabs@);
    while i < tabs.len()
        invariant
            i <= tabs@.len(),
            tab_label(tabs@, id@) == tab_label(tabs@.subrange(i as int, tabs@.len() as int), id@),
        decreases tabs@.len() - i,
    {
        assert(tabs@.subrange(i as int, tabs@.len() as int).drop_first() =~= tabs@.subrange(i + 1, tabs@.len() as int));
        if str_equal(tabs[i].tab_id.as_str(), id) {
            return Some(tabs[i].label.clone());
        }
        i = i + 1;
    }
    None
}

/// The two lines of the mobile header.
pub fn mobile_header_text(snapshot: &ClientShellSnapshot) -> (r: (String, String))
    ensures
        (r.0@, r.1@) == spec_mobile_header(*snapshot),
{
    let found = match &snapshot.focused_workspace_id {
        Some(id) => find_workspace_label(&snapshot.workspaces, id.as_str()),
        None => None,
    };
    let workspace = match found {
        Some(l) => l,
        None => "Herdr".to_owned(),
    };
    let found_tab = match &snapshot.focused_tab_id {
        Some(id) => find_tab_label(&snapshot.tabs, id.as_str()),
        None => None,
    };
    let tab = match found_tab {
        Some(l) => l,
        None => "terminal".to_owned(),
    };
    (concat(" \u{2630}  ", workspace.as_str()), tab)
}

/// The width a drag of the sidebar's divider to `column` asks for: one past
/// the column, kept in the sidebar's range.
pub open spec fn dragged_sidebar_width(c: ClientShellLayoutConfig, column: u16) -> u16 {
    let (lo, hi) = match c.sidebar_bounds {
        Some(b) => (b.min, b.max),
        None => (18u16, 36u16),
    };
    let wanted: u16 = if column == u16::MAX {
        u16::MAX
    } else {
        (column + 1) as u16
    };
    if wanted < lo {
        lo
    } else if wanted > hi {
        hi
    } else {
        wanted
    }
}

/// Sets the sidebar width from a drag of its divider to `column`, as
/// `dragged_sidebar_width` says; returns whether it changed (the shell then
/// remembers the width as chosen by hand, and lays out again).
pub fn set_sidebar_width_from_column(config: &ClientShellLayoutConfig, sidebar_width: &mut u16, column: u16) -> (changed:
    bool)
    requires
        config.wf(),
    ensures
        *final(sidebar_width) == dragged_sidebar_width(*config, column),
        changed == (*old(sidebar_width) != dragged_sidebar_width(*config, column)),
{
    let (lo, hi) = match config.sidebar_bounds {
        Some(b) => (b.min, b.max),
        None => (18u16, 36u16),
    };
    let wanted = column.saturating_add(1);
    let width = if wanted < lo {
        lo
    } else if wanted > hi {
        hi
    } else {
        wanted
    };
    if *sidebar_width != width {
        *sidebar_width = width;
        true
    } else {
        false
    }
}

} // verus!
