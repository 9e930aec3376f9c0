//! Where the sidebar puts its rows: the workspace list (grouped, scrolled, each
//! entry as tall as its configured rows), its footer, the agent list below it, and
//! the collapse toggle; or, collapsed, one numbered row per workspace.
use vstd::prelude::*;

use crate::geometry::{min_u16, sat_add, sat_sub, spec_rect, Rect};
use crate::sidebar::{parent_group_key, spec_parent_group_key, spec_workspace_entries, workspace_entries, WorkspaceEntry};
use crate::snapshot::{ClientShellAgent, ClientShellSnapshot};
use crate::status::{spec_status_icon, status_dot, StatusIndicatorStyle};
use crate::text::{concat, decimal, decimal_string, names_view, space_run, spaces};
use crate::workspace_tokens::{
    config_view, rows_view, spec_workspace_rows, workspace_rows, SpacesSidebarConfig, WorkspaceToken,
    WorkspaceTokenView,
};

verus! {

/// The rows above the workspace list: its title and a blank row.
pub const WORKSPACE_HEADER_ROWS: u16 = 2;

/// One row of the collapsed sidebar.
#[derive(Clone, Debug)]
pub struct CollapsedRow {
    pub rect: Rect,
    pub workspace_id: String,
    /// The workspace number, left-aligned in two columns, then its status dot.
    pub text: String,
}

/// The collapsed sidebar's rows and its expand toggle.
#[derive(Clone, Debug)]
pub struct CollapsedSidebarLayout {
    pub rows: Vec<CollapsedRow>,
    pub sidebar_toggle: Rect,
}

/// The abstract collapsed row.
pub ghost struct CollapsedRowView {
    pub rect: Rect,
    pub workspace_id: Seq<char>,
    pub text: Seq<char>,
}

pub open spec fn collapsed_rows_view(rows: Seq<CollapsedRow>) -> Seq<CollapsedRowView> {
    rows.map_values(|r: CollapsedRow| CollapsedRowView { rect: r.rect, workspace_id: r.workspace_id@, text: r.text@ })
}

/// `digits` left-aligned in two columns.
pub open spec fn pad2(digits: Seq<char>) -> Seq<char> {
    if digits.len() < 2 {
        digits + spaces((2 - digits.len()) as nat)
    } else {
        digits
    }
}

/// How many workspaces the collapsed sidebar in `area` lists: one per row, the last
/// row left for the toggle.
pub open spec fn collapsed_count(area: Rect, n: nat) -> nat {
    let room = sat_sub(area.spec_bottom(), 1) - area.y;
    if room <= 0 {
        0
    } else if n < room {
        n
    } else {
        room as nat
    }
}

/// Row `i` of the collapsed sidebar.
pub open spec fn collapsed_row(area: Rect, s: ClientShellSnapshot, i: int) -> CollapsedRowView {
    let w = s.workspaces@[i];
    CollapsedRowView {
        rect: spec_rect(area.x, (area.y + i) as u16, sat_sub(area.width, 1), 1),
        workspace_id: w.workspace_id@,
        text: pad2(decimal(w.number as nat)) + spec_status_icon(w.agent_status, StatusIndicatorStyle::Dots, None),
    }
}

/// Where the collapsed sidebar's expand toggle goes: the middle of the last row.
pub open spec fn collapsed_toggle(area: Rect) -> Rect {
    let cw = sat_sub(area.width, 1);
    spec_rect(
        (area.x + cw / 2) as u16,
        sat_sub(area.spec_bottom(), 1),
        if cw > 0 { 1 } else { 0 },
        if area.height > 0 { 1 } else { 0 },
    )
}

/// The collapsed sidebar in `area`: the workspaces top down, one row each showing
/// the workspace number and status dot, as many as fit above the last row, which
/// holds the expand toggle.
pub fn collapsed_sidebar_layout(area: Rect, snapshot: &ClientShellSnapshot) -> (r: CollapsedSidebarLayout)
    requires
        area.x + sat_sub(area.width, 1) / 2 <= u16::MAX,
    ensures
        collapsed_rows_view(r.rows@).len() == collapsed_count(area, snapshot.workspaces@.len()),
        forall|i: int|
            0 <= i < r.rows@.len() ==> collapsed_rows_view(r.rows@)[i] == collapsed_row(area, *snapshot, i),
        r.sidebar_toggle == collapsed_toggle(area),
{
    let content_width = area.width.saturating_sub(1);
    let last = area.bottom().saturating_sub(1);
    let mut rows: Vec<CollapsedRow> = Vec::new();
    let mut i: usize = 0;
    while i < snapshot.workspaces.len()
        invariant
            i <= snapshot.workspaces@.len(),
            last == sat_sub(area.spec_bottom(), 1),
            content_width == sat_sub(area.width, 1),
            area.y + i <= last || i == 0,
            rows@.len() == i,
            forall|k: int| 0 <= k < i ==> collapsed_rows_view(rows@)[k] == collapsed_row(area, *snapshot, k),
        ensures
            rows@.len() == collapsed_count(area, snapshot.workspaces@.len()),
            forall|k: int| 0 <= k < rows@.len() ==> collapsed_rows_view(rows@)[k] == collapsed_row(area, *snapshot, k),
        decreases snapshot.workspaces@.len() - i,
    {
        if area.y as usize + i >= last as usize {
            break;
        }
        let y = area.y + i as u16;
        let w = &snapshot.workspaces[i];
        let digits = decimal_string(w.number);
        let n = digits.unicode_len();
        let number = if n < 2 {
            concat(digits.as_str(), space_run(2 - n).as_str())
        } else {
            digits
        };
        let text = concat(number.as_str(), status_dot(w.agent_status));
        rows.push(CollapsedRow { rect: Rect::new(area.x, y, content_width, 1), workspace_id: w.workspace_id.clone(), text });
        i = i + 1;
    }
    let toggle = Rect::new(
        area.x + content_width / 2,
        last,
        if content_width > 0 { 1 } else { 0 },
        if area.height > 0 { 1 } else { 0 },
    );
    CollapsedSidebarLayout { rows, sidebar_toggle: toggle }
}

/// The toggle of a workspace group, on the last column of its main checkout's row.
#[derive(Clone, Debug)]
pub struct GroupToggle {
    pub rect: Rect,
    /// The repository key of the group.
    pub key: String,
}

/// One workspace entry of the sidebar.
#[derive(Debug)]
pub struct SidebarWorkspaceRow {
    pub entry: WorkspaceEntry,
    pub rect: Rect,
    pub workspace_id: String,
    pub group_toggle: Option<GroupToggle>,
    /// The token rows drawn in `rect`.
    pub rows: Vec<Vec<WorkspaceToken>>,
}

/// One row of the agent list.
#[derive(Clone, Debug)]
pub struct SidebarAgentRow {
    pub rect: Rect,
    pub pane_id: String,
    /// The agent's status dot and its name.
    pub text: String,
    pub focused: bool,
}

/// Where the expanded sidebar's parts go.
#[derive(Debug)]
pub struct SidebarLayout {
    /// The upper part: the title, the workspace list and its footer.
    pub workspace_area: Rect,
    /// The workspace list itself.
    pub body: Rect,
    /// The first entry shown, kept inside the list.
    pub workspace_scroll: usize,
    pub workspaces: Vec<SidebarWorkspaceRow>,
    /// The footer row, with the new-workspace button and the menu.
    pub footer_y: u16,
    pub new_workspace: Rect,
    /// The lower part: the agent list.
    pub detail_area: Rect,
    pub agents: Vec<SidebarAgentRow>,
    pub sidebar_toggle: Rect,
}

/// The abstract workspace entry row.
pub ghost struct SidebarRowView {
    pub entry: WorkspaceEntry,
    pub rect: Rect,
    pub workspace_id: Seq<char>,
    pub group_toggle: Option<(Rect, Seq<char>)>,
    pub rows: Seq<Seq<WorkspaceTokenView>>,
}

pub open spec fn sidebar_row_view(r: SidebarWorkspaceRow) -> SidebarRowView {
    SidebarRowView {
        entry: r.entry,
        rect: r.rect,
        workspace_id: r.workspace_id@,
        group_toggle: match r.group_toggle {
            Some(t) => Some((t.rect, t.key@)),
            None => None,
        },
        rows: rows_view(r.rows@),
    }
}

pub open spec fn sidebar_rows_view(rows: Seq<SidebarWorkspaceRow>) -> Seq<SidebarRowView> {
    rows.map_values(|r: SidebarWorkspaceRow| sidebar_row_view(r))
}

/// The height of the upper part of a sidebar `h` rows tall: half of it, rounded
/// half up, but at least three rows and leaving three below.
pub open spec fn workspace_height(h: u16) -> u16 {
    let half = (h + 1) / 2;
    let low: int = if half < 3 { 3 } else { half };
    let high = h - 3;
    (if low > high { high } else { low }) as u16
}

/// The height an entry of `n` token rows takes: one row at least.
pub open spec fn entry_height(n: nat) -> u16 {
    if n < 1 {
        1
    } else if n > u16::MAX {
        u16::MAX
    } else {
        n as u16
    }
}

/// The entries `entries[k..]` laid out from row `y` of `body`, and whether the
/// computation stays in range: each entry as tall as its token rows, followed by
/// `gap` blank rows; the list stops at the first entry that does not fit.
pub open spec fn entry_rows(
    s: ClientShellSnapshot,
    cfg: Seq<Seq<crate::workspace_tokens::SpaceSidebarToken>>,
    gap: u16,
    entries: Seq<WorkspaceEntry>,
    k: int,
    y: u16,
    body: Rect,
) -> (Seq<SidebarRowView>, bool)
    decreases entries.len() - k,
{
    if k < 0 || k >= entries.len() {
        (Seq::empty(), true)
    } else {
        let e = entries[k];
        if e.index >= s.workspaces@.len() {
            entry_rows(s, cfg, gap, entries, k + 1, y, body)
        } else {
            let w = s.workspaces@[e.index as int];
            let rows = spec_workspace_rows(w, e.indented, cfg);
            let rh = entry_height(rows.len());
            if sat_add(y, rh) > body.spec_bottom() {
                (Seq::empty(), true)
            } else {
                let rect = spec_rect(body.x, y, body.width, rh);
                let row = SidebarRowView {
                    entry: e,
                    rect,
                    workspace_id: w.workspace_id@,
                    group_toggle: match spec_parent_group_key(s.workspaces@, e.index as int) {
                        Some(key) => Some((spec_rect(sat_sub(rect.spec_right(), 1), y, 1, 1), key)),
                        None => None,
                    },
                    rows,
                };
                if rh + gap > u16::MAX {
                    (seq![row], false)
                } else {
                    let rest = entry_rows(s, cfg, gap, entries, k + 1, sat_add(y, (rh + gap) as u16), body);
                    (seq![row] + rest.0, rest.1)
                }
            }
        }
    }
}

/// The label an agent row shows: the agent's name, display name, kind or title,
/// else "terminal".
pub open spec fn agent_label(a: ClientShellAgent) -> Seq<char> {
    match a.name {
        Some(x) => x@,
        None => match a.display_agent {
            Some(x) => x@,
            None => match a.agent {
                Some(x) => x@,
                None => match a.title {
                    Some(x) => x@,
                    None => "terminal"@,
                },
            },
        },
    }
}

/// The abstract agent row.
pub ghost struct AgentRowView {
    pub rect: Rect,
    pub pane_id: Seq<char>,
    pub text: Seq<char>,
    pub focused: bool,
}

pub open spec fn agent_rows_view(rows: Seq<SidebarAgentRow>) -> Seq<AgentRowView> {
    rows.map_values(|r: SidebarAgentRow| AgentRowView { rect: r.rect, pane_id: r.pane_id@, text: r.text@, focused: r.focused })
}

/// How many agents the lower part `detail` lists: one per row from its fourth row.
pub open spec fn agent_count(detail: Rect, n: nat) -> nat {
    let room = detail.spec_bottom() - (detail.y + 3);
    if room <= 0 {
        0
    } else if n < room {
        n
    } else {
        room as nat
    }
}

/// Row `i` of the agent list.
pub open spec fn agent_row(detail: Rect, a: ClientShellAgent, i: int) -> AgentRowView {
    AgentRowView {
        rect: spec_rect(detail.x, (detail.y + 3 + i) as u16, detail.width, 1),
        pane_id: a.pane_id@,
        text: " "@ + spec_status_icon(a.agent_status, StatusIndicatorStyle::Dots, None) + "  "@ + agent_label(a),
        focused: a.focused,
    }
}

/// An agent row shows the agent's status dot, then the agent's name when it has
/// one; without a name, its display name; without either, its kind; then its
/// title; and "terminal" when the agent reports none of these.
pub proof fn lemma_agent_row_names_the_agent(detail: Rect, a: ClientShellAgent, i: int)
    ensures
        ({
            let t = agent_row(detail, a, i).text;
            let shown = match (a.name, a.display_agent, a.agent, a.title) {
                (Some(x), _, _, _) => x@,
                (None, Some(x), _, _) => x@,
                (None, None, Some(x), _) => x@,
                (None, None, None, Some(x)) => x@,
                (None, None, None, None) => "terminal"@,
            };
            t == " "@ + spec_status_icon(a.agent_status, StatusIndicatorStyle::Dots, None) + "  "@ + shown
        }),
{
}

/// The upper part of a sidebar in `area`.
pub open spec fn workspace_area_of(area: Rect) -> Rect {
    spec_rect(area.x, area.y, sat_sub(area.width, 1), workspace_height(area.height))
}

/// The workspace list inside the upper part.
pub open spec fn body_of(wa: Rect) -> Rect {
    spec_rect(wa.x, sat_add(wa.y, 2), wa.width, sat_sub(wa.height, 3))
}

/// The lower part of a sidebar in `area`.
pub open spec fn detail_of(area: Rect) -> Rect {
    let wa = workspace_area_of(area);
    spec_rect(area.x, wa.spec_bottom(), sat_sub(area.width, 1), sat_sub(area.spec_bottom(), wa.spec_bottom()))
}

/// The entries of the workspace list from the scrolled-to one.
pub open spec fn listed_entries(s: ClientShellSnapshot, collapsed: Seq<String>, scroll: usize) -> (usize, Seq<WorkspaceEntry>) {
    let entries = spec_workspace_entries(s.workspaces@, names_view(collapsed));
    let last: int = if entries.len() == 0 { 0 } else { entries.len() - 1 };
    let first: usize = if scroll < last { scroll } else { last as usize };
    (first, entries)
}

/// Whether laying out the sidebar stays inside `u16`: the entries, and the first
/// agent row.
pub open spec fn sidebar_fits(
    area: Rect,
    s: ClientShellSnapshot,
    cfg: SpacesSidebarConfig,
    collapsed: Seq<String>,
    scroll: usize,
) -> bool {
    let (first, entries) = listed_entries(s, collapsed, scroll);
    let wa = workspace_area_of(area);
    &&& entry_rows(s, config_view(cfg.rows@), cfg.row_gap, entries, first as int, body_of(wa).y, body_of(wa)).1
    &&& s.agents@.len() > 0 ==> detail_of(area).y + 3 <= u16::MAX
}

fn exec_agent_label(a: &ClientShellAgent) -> (r: String)
    ensures
        r@ == agent_label(*a),
{
    match &a.name {
        Some(x) => x.clone(),
        None => match &a.display_agent {
            Some(x) => x.clone(),
            None => match &a.agent {
                Some(x) => x.clone(),
                None => match &a.title {
                    Some(x) => x.clone(),
                    None => "terminal".to_owned(),
                },
            },
        },
    }
}

proof fn lemma_entry_rows_skip(
    s: ClientShellSnapshot,
    cfg: Seq<Seq<crate::workspace_tokens::SpaceSidebarToken>>,
    gap: u16,
    entries: Seq<WorkspaceEntry>,
    k: int,
    y: u16,
    body: Rect,
)
    requires
        0 <= k < entries.len(),
        entries[k].index >= s.workspaces@.len(),
    ensures
        entry_rows(s, cfg, gap, entries, k, y, body) == entry_rows(s, cfg, gap, entries, k + 1, y, body),
{
}

/// The expanded sidebar in `area`: the upper half (at least three rows, leaving
/// three) holds the title, the workspace list from entry `workspace_scroll` (kept
/// inside the list) and the footer; each entry is as tall as the token rows it
/// shows, with the configured gap after it, and the list stops at the first entry
/// that does not fit; a main checkout whose group has two checkouts or more carries
/// the group toggle on its last column. The lower part lists the agents from its
/// fourth row, one per row; the collapse toggle sits on the last row.
pub fn sidebar_layout(
    area: Rect,
    snapshot: &ClientShellSnapshot,
    config: &SpacesSidebarConfig,
    collapsed_groups: &[String],
    workspace_scroll: usize,
) -> (r: SidebarLayout)
    requires
        area.height >= 6,
        sidebar_fits(area, *snapshot, *config, collapsed_groups@, workspace_scroll),
    ensures
        r.workspace_area == workspace_area_of(area),
        r.body == body_of(r.workspace_area),
        r.workspace_scroll == listed_entries(*snapshot, collapsed_groups@, workspace_scroll).0,
        sidebar_rows_view(r.workspaces@) == entry_rows(
            *snapshot,
            config_view(config.rows@),
            config.row_gap,
            listed_entries(*snapshot, collapsed_groups@, workspace_scroll).1,
            r.workspace_scroll as int,
            r.body.y,
            r.body,
        ).0,
        r.footer_y == sat_sub(r.workspace_area.spec_bottom(), 1),
        r.new_workspace == spec_rect(
            r.workspace_area.x,
            r.footer_y,
            min_u16(5, r.workspace_area.width),
            if r.workspace_area.height > 0 { 1 } else { 0 },
        ),
        r.detail_area == detail_of(area),
        r.agents@.len() == agent_count(r.detail_area, snapshot.agents@.len()),
        forall|i: int|
            0 <= i < r.agents@.len() ==> agent_rows_view(r.agents@)[i] == agent_row(
                r.detail_area,
                snapshot.agents@[i],
                i,
            ),
        r.sidebar_toggle == spec_rect(
            sat_sub(area.spec_right(), 2),
            sat_sub(area.spec_bottom(), 1),
            if area.width > 1 { 1 } else { 0 },
            if area.height > 0 { 1 } else { 0 },
        ),
{
    let content_width = area.width.saturating_sub(1);
    let h = area.height;
    let half = h / 2 + h % 2;
    let low = if half < 3 { 3 } else { half };
    let high = h - 3;
    let wh = if low > high { high } else { low };
    let workspace_area = Rect::new(area.x, area.y, content_width, wh);
    let body = Rect::new(
        workspace_area.x,
        workspace_area.y.saturating_add(WORKSPACE_HEADER_ROWS),
        workspace_area.width,
        workspace_area.height.saturating_sub(WORKSPACE_HEADER_ROWS + 1),
    );
    let entries = workspace_entries(snapshot, collapsed_groups);
    let last = if entries.len() == 0 { 0 } else { entries.len() - 1 };
    let first = if workspace_scroll < last { workspace_scroll } else { last };
    let ghost cfg = config_view(config.rows@);
    let ghost ev = entries@;
    let bottom = body.bottom();
    let mut y = body.y;
    let mut k = first;
    let mut rows: Vec<SidebarWorkspaceRow> = Vec::new();
    proof {
        let whole = entry_rows(*snapshot, cfg, config.row_gap, ev, first as int, body.y, body);
        assert(sidebar_rows_view(rows@) + whole.0 =~= whole.0);
    }
    while k < entries.len()
        invariant
            ev == entries@,
            cfg == config_view(config.rows@),
            bottom == body.spec_bottom(),
            first <= k,
            ({
                let whole = entry_rows(*snapshot, cfg, config.row_gap, ev, first as int, body.y, body);
                let rest = entry_rows(*snapshot, cfg, config.row_gap, ev, k as int, y, body);
                whole == (sidebar_rows_view(rows@) + rest.0, rest.1) && whole.1
            }),
        ensures
            entry_rows(*snapshot, cfg, config.row_gap, ev, first as int, body.y, body).0 == sidebar_rows_view(rows@),
        decreases entries@.len() - k,
    {
        let e = entries[k];
        if e.index >= snapshot.workspaces.len() {
            proof {
                lemma_entry_rows_skip(*snapshot, cfg, config.row_gap, ev, k as int, y, body);
            }
            k = k + 1;
        } else {
            let w = &snapshot.workspaces[e.index];
            let shown = workspace_rows(w, e.indented, &config.rows);
            let n = shown.len();
            let rh: u16 = if n < 1 { 1 } else if n > u16::MAX as usize { u16::MAX } else { n as u16 };
            assert(rows_view(shown@).len() == n);
            if y.saturating_add(rh) > bottom {
                assert(sidebar_rows_view(rows@) + Seq::<SidebarRowView>::empty() =~= sidebar_rows_view(rows@));
                break;
            }
            let rect = Rect::new(body.x, y, body.width, rh);
            let toggle = match parent_group_key(snapshot, e.index) {
                Some(key) => Some(GroupToggle { rect: Rect::new(rect.right().saturating_sub(1), y, 1, 1), key }),
                None => None,
            };
            let row = SidebarWorkspaceRow { entry: e, rect, workspace_id: w.workspace_id.clone(), group_toggle: toggle, rows: shown };
            let ghost before = rows@;
            proof {
                let rest = entry_rows(*snapshot, cfg, config.row_gap, ev, k as int, y, body);
                assert(sidebar_row_view(row) == rest.0[0]);
            }
            rows.push(row);
            assert(sidebar_rows_view(rows@) =~= sidebar_rows_view(before).push(sidebar_row_view(row)));
            y = y.saturating_add(rh + config.row_gap);
            k = k + 1;
            proof {
                let rest = entry_rows(*snapshot, cfg, config.row_gap, ev, k as int, y, body);
                assert(sidebar_rows_view(before).push(sidebar_row_view(row)) + rest.0 =~= sidebar_rows_view(before)
                    + (seq![sidebar_row_view(row)] + rest.0));
            }
        }
    }
    let footer_y = workspace_area.bottom().saturating_sub(1);
    let new_workspace = Rect::new(
        workspace_area.x,
        footer_y,
        if workspace_area.width < 5 { workspace_area.width } else { 5 },
        if workspace_area.height > 0 { 1 } else { 0 },
    );
    let detail_area = Rect::new(
        area.x,
        workspace_area.bottom(),
        content_width,
        area.bottom().saturating_sub(workspace_area.bottom()),
    );
    let detail_bottom = detail_area.bottom();
    let mut agents: Vec<SidebarAgentRow> = Vec::new();
    let mut i: usize = 0;
    while i < snapshot.agents.len()
        invariant
            i <= snapshot.agents@.len(),
            detail_area == detail_of(area),
            detail_bottom == detail_area.spec_bottom(),
            snapshot.agents@.len() > 0 ==> detail_area.y + 3 <= u16::MAX,
            detail_area.y + 3 + i <= detail_bottom || i == 0,
            agents@.len() == i,
            forall|q: int| 0 <= q < i ==> agent_rows_view(agents@)[q] == agent_row(detail_area, snapshot.agents@[q], q),
        ensures
            agents@.len() == agent_count(detail_area, snapshot.agents@.len()),
            forall|q: int| 0 <= q < agents@.len() ==> agent_rows_view(agents@)[q] == agent_row(
                detail_area,
                snapshot.agents@[q],
                q,
            ),
        decreases snapshot.agents@.len() - i,
    {
        if detail_area.y as usize + 3 + i >= detail_bottom as usize {
            break;
        }
        let y = detail_area.y + 3 + i as u16;
        let a = &snapshot.agents[i];
        let label = exec_agent_label(a);
        let lead = concat(concat(" ", status_dot(a.agent_status)).as_str(), "  ");
        let text = concat(lead.as_str(), label.as_str());
        let row = SidebarAgentRow { rect: Rect::new(detail_area.x, y, detail_area.width, 1), pane_id: a.pane_id.clone(), text, focused: a.focused };
        assert(AgentRowView { rect: row.rect, pane_id: row.pane_id@, text: row.text@, focused: row.focused } == agent_row(
            detail_area,
            snapshot.agents@[i as int],
            i as int,
        ));
        let ghost before = agents@;
        agents.push(row);
        assert forall|q: int| 0 <= q < i + 1 implies agent_rows_view(agents@)[q] == agent_row(
            detail_area,
            snapshot.agents@[q],
            q,
        ) by {
            if q < i {
                assert(agents@[q] == before[q]);
                assert(agent_rows_view(before)[q] == agent_row(detail_area, snapshot.agents@[q], q));
            }
        }
        i = i + 1;
    }
    let sidebar_toggle = Rect::new(
        area.right().saturating_sub(2),
        area.bottom().saturating_sub(1),
        if area.width > 1 { 1 } else { 0 },
        if area.height > 0 { 1 } else { 0 },
    );
    SidebarLayout {
        workspace_area,
        body,
        workspace_scroll: first,
        workspaces: rows,
        footer_y,
        new_workspace,
        detail_area,
        agents,
        sidebar_toggle,
    }
}

/// The workspace entries stay inside the list and in order: each lies between its
/// start row and the bottom of the list, and each next entry starts below the one
/// before.
pub proof fn lemma_entry_rows_in_body(
    s: ClientShellSnapshot,
    cfg: Seq<Seq<crate::workspace_tokens::SpaceSidebarToken>>,
    gap: u16,
    entries: Seq<WorkspaceEntry>,
    k: int,
    y: u16,
    body: Rect,
)
    ensures
        ({
            let rows = entry_rows(s, cfg, gap, entries, k, y, body).0;
            &&& forall|j: int|
                0 <= j < rows.len() ==> {
                    &&& (#[trigger] rows[j]).rect.y >= y
                    &&& rows[j].rect.y + rows[j].rect.height <= body.spec_bottom()
                }
            &&& forall|j: int| 0 <= j < rows.len() - 1 ==> (#[trigger] rows[j]).rect.y + rows[j].rect.height <= rows[j + 1].rect.y
        }),
    decreases entries.len() - k,
{
    if 0 <= k < entries.len() {
        let e = entries[k];
        if e.index >= s.workspaces@.len() {
            lemma_entry_rows_in_body(s, cfg, gap, entries, k + 1, y, body);
        } else {
            let w = s.workspaces@[e.index as int];
            let rh = entry_height(spec_workspace_rows(w, e.indented, cfg).len());
            if sat_add(y, rh) <= body.spec_bottom() && rh + gap <= u16::MAX {
                let ny = sat_add(y, (rh + gap) as u16);
                lemma_entry_rows_in_body(s, cfg, gap, entries, k + 1, ny, body);
                let rows = entry_rows(s, cfg, gap, entries, k, y, body).0;
                let rest = entry_rows(s, cfg, gap, entries, k + 1, ny, body).0;
                assert forall|j: int| 0 < j < rows.len() implies rows[j] == rest[j - 1] by {}
                assert(rows[0].rect == spec_rect(body.x, y, body.width, rh));
                if rows.len() > 1 {
                    assert(rows[1] == rest[0]);
                    assert(rest[0].rect.y >= ny);
                }
                assert forall|j: int| 0 <= j < rows.len() implies {
                    &&& (#[trigger] rows[j]).rect.y >= y
                    &&& rows[j].rect.y + rows[j].rect.height <= body.spec_bottom()
                } by {
                    if j > 0 {
                        assert(rows[j] == rest[j - 1]);
                    }
                }
                assert forall|j: int| 0 <= j < rows.len() - 1 implies (#[trigger] rows[j]).rect.y + rows[j].rect.height
                    <= rows[j + 1].rect.y by {
                    if j > 0 {
                        assert(rows[j] == rest[j - 1]);
                        assert(rows[j + 1] == rest[j]);
                    }
                }
            }
        }
    }
}

} // verus!
