//! The rows of the navigator overlay: workspaces, their tabs and the tabs' panes,
//! narrowed by a text query and a status filter.
use vstd::prelude::*;

use crate::overlay::{ClientNavigatorFilter, ClientNavigatorOverlay};
use crate::snapshot::{opt_view, ClientShellAgent, ClientShellPane, ClientShellSnapshot, ClientShellTab, ClientShellWorkspace};
use crate::status::AgentStatus;
use crate::text::{
    concat, contains_seq, contains_text, decimal, decimal_string, lowercased, names_contain, names_view,
    str_equal, to_lowercase, trim, trim_spec,
};

verus! {

/// What choosing a navigator row focuses.
#[derive(Clone, Debug)]
pub enum ClientNavigatorTarget {
    Workspace(String),
    Tab(String),
    Pane(String),
}

/// One row of the navigator.
#[derive(Clone, Debug)]
pub struct ClientNavigatorRow {
    /// 0 for a workspace, 1 for a tab, 2 for a pane.
    pub depth: u8,
    pub label: String,
    pub meta: String,
    pub status: AgentStatus,
    /// Whether the row is the focused workspace, tab or pane.
    pub current: bool,
    pub target: ClientNavigatorTarget,
}

/// What a navigator row targets, by id.
pub ghost enum NavigatorTargetView {
    Workspace(Seq<char>),
    Tab(Seq<char>),
    Pane(Seq<char>),
}

/// The abstract navigator row.
pub ghost struct NavigatorRowView {
    pub depth: u8,
    pub label: Seq<char>,
    pub meta: Seq<char>,
    pub status: AgentStatus,
    pub current: bool,
    pub target: NavigatorTargetView,
}

impl View for ClientNavigatorRow {
    type V = NavigatorRowView;

    open spec fn view(&self) -> NavigatorRowView {
        NavigatorRowView {
            depth: self.depth,
            label: self.label@,
            meta: self.meta@,
            status: self.status,
            current: self.current,
            target: match self.target {
                ClientNavigatorTarget::Workspace(id) => NavigatorTargetView::Workspace(id@),
                ClientNavigatorTarget::Tab(id) => NavigatorTargetView::Tab(id@),
                ClientNavigatorTarget::Pane(id) => NavigatorTargetView::Pane(id@),
            },
        }
    }
}

pub open spec fn rows_view(rows: Seq<ClientNavigatorRow>) -> Seq<NavigatorRowView> {
    rows.map_values(|r: ClientNavigatorRow| r@)
}

/// The query rows are matched against: trimmed and lowercased.
pub open spec fn query_of(n: ClientNavigatorOverlay) -> Seq<char> {
    lowercased(trim_spec(n.query@))
}

/// Whether status `st` passes the navigator's status filter.
pub open spec fn status_passes(filter: Option<ClientNavigatorFilter>, st: AgentStatus) -> bool {
    match filter {
        Some(ClientNavigatorFilter::Blocked) => st == AgentStatus::Blocked,
        Some(ClientNavigatorFilter::Working) => st == AgentStatus::Working,
        Some(ClientNavigatorFilter::Idle) => st == AgentStatus::Idle,
        Some(ClientNavigatorFilter::Done) => st == AgentStatus::Done,
        None => true,
    }
}

/// Whether text `v` matches query `q`: an empty query matches everything, else the
/// lowercased text must contain it.
pub open spec fn text_matches(q: Seq<char>, v: Seq<char>) -> bool {
    q.len() == 0 || contains_seq(lowercased(v), q)
}

/// Whether the navigator narrows its rows at all.
pub open spec fn is_filtering(filter: Option<ClientNavigatorFilter>, q: Seq<char>) -> bool {
    filter is Some || q.len() > 0
}

/// The first agent reported for pane `pane_id`.
pub open spec fn first_agent(agents: Seq<ClientShellAgent>, pane_id: Seq<char>) -> Option<ClientShellAgent>
    decreases agents.len(),
{
    if agents.len() == 0 {
        None
    } else if agents[0].pane_id@ == pane_id {
        Some(agents[0])
    } else {
        first_agent(agents.drop_first(), pane_id)
    }
}

/// How many of `panes` belong to tab `tab_id`.
pub open spec fn count_in_tab(panes: Seq<ClientShellPane>, tab_id: Seq<char>) -> nat
    decreases panes.len(),
{
    if panes.len() == 0 {
        0
    } else {
        count_in_tab(panes.drop_last(), tab_id) + if panes.last().tab_id@ == tab_id {
            1nat
        } else {
            0nat
        }
    }
}

/// The label of the `ix`-th pane of its tab: its own label, else the agent's name,
/// display name or title, else "pane" and its one-based number.
pub open spec fn pane_label(p: ClientShellPane, a: Option<ClientShellAgent>, ix: nat) -> Seq<char> {
    let fallback = "pane "@ + decimal(ix + 1);
    match p.label {
        Some(l) => l@,
        None => match a {
            Some(a) => match a.name {
                Some(x) => x@,
                None => match a.display_agent {
                    Some(x) => x@,
                    None => match a.title {
                        Some(x) => x@,
                        None => fallback,
                    },
                },
            },
            None => fallback,
        },
    }
}

/// The directory shown beside a pane: the foreground process's, else the pane's.
pub open spec fn pane_meta(p: ClientShellPane) -> Seq<char> {
    match p.foreground_cwd {
        Some(x) => x@,
        None => match p.cwd {
            Some(x) => x@,
            None => Seq::empty(),
        },
    }
}

/// The row of pane `p`, the `ix`-th of its tab.
pub open spec fn pane_row(s: ClientShellSnapshot, p: ClientShellPane, ix: nat) -> NavigatorRowView {
    let a = first_agent(s.agents@, p.pane_id@);
    NavigatorRowView {
        depth: 2,
        label: pane_label(p, a, ix),
        meta: pane_meta(p),
        status: match a {
            Some(a) => a.agent_status,
            None => AgentStatus::Unknown,
        },
        current: opt_view(s.focused_pane_id) == Some(p.pane_id@),
        target: NavigatorTargetView::Pane(p.pane_id@),
    }
}

/// Whether a pane row stays: always when not filtering, else its status must pass
/// and its label or directory match.
pub open spec fn pane_kept(filter: Option<ClientNavigatorFilter>, q: Seq<char>, row: NavigatorRowView) -> bool {
    !is_filtering(filter, q) || status_passes(filter, row.status) && (text_matches(q, row.label)
        || text_matches(q, row.meta))
}

/// The kept rows of the panes of tab `tab_id` among the first `k` panes.
pub open spec fn pane_rows(
    s: ClientShellSnapshot,
    filter: Option<ClientNavigatorFilter>,
    q: Seq<char>,
    tab_id: Seq<char>,
    k: int,
) -> Seq<NavigatorRowView>
    decreases k,
{
    if k <= 0 {
        Seq::empty()
    } else {
        let prev = pane_rows(s, filter, q, tab_id, k - 1);
        let p = s.panes@[k - 1];
        if p.tab_id@ == tab_id {
            let row = pane_row(s, p, count_in_tab(s.panes@.take(k - 1), tab_id));
            if pane_kept(filter, q, row) {
                prev.push(row)
            } else {
                prev
            }
        } else {
            prev
        }
    }
}

/// The row of tab `t`; its meta counts all its panes.
pub open spec fn tab_row(s: ClientShellSnapshot, t: ClientShellTab) -> NavigatorRowView {
    NavigatorRowView {
        depth: 1,
        label: t.label@,
        meta: decimal(count_in_tab(s.panes@, t.tab_id@)) + " panes"@,
        status: t.agent_status,
        current: opt_view(s.focused_tab_id) == Some(t.tab_id@),
        target: NavigatorTargetView::Tab(t.tab_id@),
    }
}

/// The rows of tab `t`: its own row then its kept panes, or nothing when
/// filtering leaves neither the tab nor any of its panes.
pub open spec fn tab_block(
    s: ClientShellSnapshot,
    filter: Option<ClientNavigatorFilter>,
    q: Seq<char>,
    t: ClientShellTab,
) -> Seq<NavigatorRowView> {
    let panes = pane_rows(s, filter, q, t.tab_id@, s.panes@.len() as int);
    if !is_filtering(filter, q) || status_passes(filter, t.agent_status) && text_matches(q, t.label@)
        || panes.len() > 0 {
        seq![tab_row(s, t)] + panes
    } else {
        Seq::empty()
    }
}

/// The rows of the tabs of workspace `ws_id` among the first `k` tabs.
pub open spec fn tab_rows(
    s: ClientShellSnapshot,
    filter: Option<ClientNavigatorFilter>,
    q: Seq<char>,
    ws_id: Seq<char>,
    k: int,
) -> Seq<NavigatorRowView>
    decreases k,
{
    if k <= 0 {
        Seq::empty()
    } else {
        let prev = tab_rows(s, filter, q, ws_id, k - 1);
        let t = s.tabs@[k - 1];
        if t.workspace_id@ == ws_id {
            prev + tab_block(s, filter, q, t)
        } else {
            prev
        }
    }
}

/// The row of workspace `w`.
pub open spec fn workspace_row(s: ClientShellSnapshot, w: ClientShellWorkspace) -> NavigatorRowView {
    NavigatorRowView {
        depth: 0,
        label: w.label@,
        meta: match w.branch {
            Some(b) => b@,
            None => Seq::empty(),
        },
        status: w.agent_status,
        current: opt_view(s.focused_workspace_id) == Some(w.workspace_id@),
        target: NavigatorTargetView::Workspace(w.workspace_id@),
    }
}

/// Whether workspace `w` itself matches: its status passes and its label or
/// branch matches the query.
pub open spec fn workspace_matches(filter: Option<ClientNavigatorFilter>, q: Seq<char>, w: ClientShellWorkspace) -> bool {
    status_passes(filter, w.agent_status) && (text_matches(q, w.label@) || match w.branch {
        Some(b) => text_matches(q, b@),
        None => false,
    })
}

/// The rows of workspace `w`: its own row, then its tabs' rows when it is expanded
/// or the navigator is filtering; nothing when filtering leaves none of them.
pub open spec fn workspace_block(
    s: ClientShellSnapshot,
    n: ClientNavigatorOverlay,
    q: Seq<char>,
    w: ClientShellWorkspace,
) -> Seq<NavigatorRowView> {
    let children = tab_rows(s, n.filter, q, w.workspace_id@, s.tabs@.len() as int);
    let filtering = is_filtering(n.filter, q);
    if !filtering || workspace_matches(n.filter, q, w) || children.len() > 0 {
        seq![workspace_row(s, w)] + if names_view(n.expanded_workspaces@).contains(w.workspace_id@)
            || filtering {
            children
        } else {
            Seq::empty()
        }
    } else {
        Seq::empty()
    }
}

/// The rows of the first `k` workspaces.
pub open spec fn workspace_rows_upto(
    s: ClientShellSnapshot,
    n: ClientNavigatorOverlay,
    q: Seq<char>,
    k: int,
) -> Seq<NavigatorRowView>
    decreases k,
{
    if k <= 0 {
        Seq::empty()
    } else {
        workspace_rows_upto(s, n, q, k - 1) + workspace_block(s, n, q, s.workspaces@[k - 1])
    }
}

/// The navigator's rows.
pub open spec fn spec_navigator_rows(s: ClientShellSnapshot, n: ClientNavigatorOverlay) -> Seq<NavigatorRowView> {
    workspace_rows_upto(s, n, query_of(n), s.workspaces@.len() as int)
}

fn clone_opt(o: &Option<String>) -> (r: Option<String>)
    ensures
        opt_view(r) == opt_view(*o),
{
    match o {
        Some(v) => Some(v.clone()),
        None => None,
    }
}

/// Whether the optional id `focused` is `id`.
fn is_current(focused: &Option<String>, id: &str) -> (r: bool)
    ensures
        r == (opt_view(*focused) == Some(id@)),
{
    match focused {
        Some(f) => str_equal(f.as_str(), id),
        None => false,
    }
}

fn exec_status_passes(filter: Option<ClientNavigatorFilter>, st: AgentStatus) -> (r: bool)
    ensures
        r == status_passes(filter, st),
{
    match filter {
        Some(ClientNavigatorFilter::Blocked) => st == AgentStatus::Blocked,
        Some(ClientNavigatorFilter::Working) => st == AgentStatus::Working,
        Some(ClientNavigatorFilter::Idle) => st == AgentStatus::Idle,
        Some(ClientNavigatorFilter::Done) => st == AgentStatus::Done,
        None => true,
    }
}

fn exec_text_matches(q: &str, v: &str) -> (r: bool)
    ensures
        r == text_matches(q@, v@),
{
    if q.unicode_len() == 0 {
        return true;
    }
    let lower = to_lowercase(v);
    contains_text(lower.as_str(), q)
}

/// The position of the first agent reported for pane `pane_id`.
fn find_agent(agents: &Vec<ClientShellAgent>, pane_id: &str) -> (r: Option<usize>)
    ensures
        match r {
            Some(i) => i < agents@.len() && first_agent(agents@, pane_id@) == Some(agents@[i as int]),
            None => first_agent(agents@, pane_id@) is None,
        },
{
    let mut k: usize = 0;
    assert(agents@.subrange(0, agents@.len() as int) =~= agents@);
    while k < agents.len()
        invariant
            k <= agents@.len(),
            first_agent(agents@, pane_id@) == first_agent(agents@.subrange(k as int, agents@.len() as int), pane_id@),
        decreases agents@.len() - k,
    {
        assert(agents@.subrange(k as int, agents@.len() as int).drop_first() =~= agents@.subrange(
            k as int + 1,
            agents@.len() as int,
        ));
        if str_equal(agents[k].pane_id.as_str(), pane_id) {
            return Some(k);
        }
        k = k + 1;
    }
    None
}

/// How many panes belong to tab `tab_id`.
fn panes_in_tab(panes: &Vec<ClientShellPane>, tab_id: &str) -> (r: usize)
    ensures
        r == count_in_tab(panes@, tab_id@),
{
    let mut count: usize = 0;
    let mut i: usize = 0;
    while i < panes.len()
        invariant
            i <= panes@.len(),
            count <= i,
            count == count_in_tab(panes@.take(i as int), tab_id@),
        decreases panes@.len() - i,
    {
        assert(panes@.take(i as int + 1).drop_last() =~= panes@.take(i as int));
        if str_equal(panes[i].tab_id.as_str(), tab_id) {
            count = count + 1;
        }
        i = i + 1;
    }
    assert(panes@.take(panes@.len() as int) =~= panes@);
    count
}

/// The row of pane `p`, the `ix`-th of its tab.
fn make_pane_row(s: &ClientShellSnapshot, p: &ClientShellPane, ix: usize) -> (r: ClientNavigatorRow)
    requires
        ix < usize::MAX,
    ensures
        r@ == pane_row(*s, *p, ix as nat),
{
    let found = find_agent(&s.agents, p.pane_id.as_str());
    let status = match found {
        Some(i) => s.agents[i].agent_status,
        None => AgentStatus::Unknown,
    };
    let fallback = concat("pane ", decimal_string(ix + 1).as_str());
    let label = match &p.label {
        Some(l) => l.clone(),
        None => match found {
            Some(i) => {
                let a = &s.agents[i];
                match &a.name {
                    Some(x) => x.clone(),
                    None => match &a.display_agent {
                        Some(x) => x.clone(),
                        None => match &a.title {
                            Some(x) => x.clone(),
                            None => fallback,
                        },
                    },
                }
            },
            None => fallback,
        },
    };
    let meta = match &p.foreground_cwd {
        Some(x) => x.clone(),
        None => match &p.cwd {
            Some(x) => x.clone(),
            None => String::new(),
        },
    };
    ClientNavigatorRow {
        depth: 2,
        label,
        meta,
        status,
        current: is_current(&s.focused_pane_id, p.pane_id.as_str()),
        target: ClientNavigatorTarget::Pane(p.pane_id.clone()),
    }
}

/// Appends the kept rows of the panes of tab `tab_id`.
fn push_pane_rows(
    s: &ClientShellSnapshot,
    filter: Option<ClientNavigatorFilter>,
    q: &str,
    tab_id: &str,
    out: &mut Vec<ClientNavigatorRow>,
)
    ensures
        rows_view(final(out)@) == rows_view(old(out)@) + pane_rows(*s, filter, q@, tab_id@, s.panes@.len() as int),
{
    let ghost start = rows_view(out@);
    let filtering = filter.is_some() || q.unicode_len() > 0;
    let mut ix: usize = 0;
    let mut i: usize = 0;
    while i < s.panes.len()
        invariant
            i <= s.panes@.len(),
            ix <= i,
            ix == count_in_tab(s.panes@.take(i as int), tab_id@),
            filtering == is_filtering(filter, q@),
            rows_view(out@) == start + pane_rows(*s, filter, q@, tab_id@, i as int),
        decreases s.panes@.len() - i,
    {
        assert(s.panes@.take(i as int + 1).drop_last() =~= s.panes@.take(i as int));
        let p = &s.panes[i];
        if str_equal(p.tab_id.as_str(), tab_id) {
            let row = make_pane_row(s, p, ix);
            let keep = !filtering || exec_status_passes(filter, row.status) && (exec_text_matches(
                q,
                row.label.as_str(),
            ) || exec_text_matches(q, row.meta.as_str()));
            if keep {
                let ghost before = out@;
                out.push(row);
                assert(rows_view(out@) =~= rows_view(before).push(row@));
            }
            ix = ix + 1;
        }
        i = i + 1;
    }
}

/// Appends the rows of tab `t`.
fn push_tab_block(
    s: &ClientShellSnapshot,
    filter: Option<ClientNavigatorFilter>,
    q: &str,
    t: &ClientShellTab,
    out: &mut Vec<ClientNavigatorRow>,
)
    ensures
        rows_view(final(out)@) == rows_view(old(out)@) + tab_block(*s, filter, q@, *t),
{
    let mut panes: Vec<ClientNavigatorRow> = Vec::new();
    assert(rows_view(panes@) =~= Seq::<NavigatorRowView>::empty());
    push_pane_rows(s, filter, q, t.tab_id.as_str(), &mut panes);
    assert(rows_view(panes@) =~= pane_rows(*s, filter, q@, t.tab_id@, s.panes@.len() as int));
    let filtering = filter.is_some() || q.unicode_len() > 0;
    if !filtering || exec_status_passes(filter, t.agent_status) && exec_text_matches(q, t.label.as_str())
        || panes.len() > 0 {
        let count = panes_in_tab(&s.panes, t.tab_id.as_str());
        let meta = concat(decimal_string(count).as_str(), " panes");
        let row = ClientNavigatorRow {
            depth: 1,
            label: t.label.clone(),
            meta,
            status: t.agent_status,
            current: is_current(&s.focused_tab_id, t.tab_id.as_str()),
            target: ClientNavigatorTarget::Tab(t.tab_id.clone()),
        };
        let ghost before = out@;
        let ghost pv = panes@;
        out.push(row);
        out.append(&mut panes);
        assert(out@ =~= before.push(row) + pv);
        assert(rows_view(out@) =~= rows_view(before) + (seq![row@] + rows_view(pv)));
    }
}

/// Appends the rows of the tabs of workspace `ws_id`.
fn push_tab_rows(
    s: &ClientShellSnapshot,
    filter: Option<ClientNavigatorFilter>,
    q: &str,
    ws_id: &str,
    out: &mut Vec<ClientNavigatorRow>,
)
    ensures
        rows_view(final(out)@) == rows_view(old(out)@) + tab_rows(*s, filter, q@, ws_id@, s.tabs@.len() as int),
{
    let ghost start = rows_view(out@);
    let mut i: usize = 0;
    while i < s.tabs.len()
        invariant
            i <= s.tabs@.len(),
            rows_view(out@) == start + tab_rows(*s, filter, q@, ws_id@, i as int),
        decreases s.tabs@.len() - i,
    {
        let t = &s.tabs[i];
        if str_equal(t.workspace_id.as_str(), ws_id) {
            push_tab_block(s, filter, q, t, out);
        }
        i = i + 1;
    }
}

/// The navigator's rows for `snapshot`. A workspace row is followed by its tabs'
/// rows when the workspace is expanded or the navigator is filtering; a tab row is
/// followed by its panes' rows. While filtering (a status filter is set or the
/// trimmed query is not empty), a pane stays when its status passes and its label or
/// directory contains the lowercased query; a tab stays when it matches so or keeps
/// a pane; a workspace stays when it matches (label or branch) or keeps a tab.
pub fn client_navigator_rows(snapshot: &ClientShellSnapshot, navigator: &ClientNavigatorOverlay) -> (r: Vec<
    ClientNavigatorRow,
>)
    ensures
        rows_view(r@) == spec_navigator_rows(*snapshot, *navigator),
{
    let trimmed = trim(navigator.query.as_str());
    let q = to_lowercase(trimmed.as_str());
    let filter = navigator.filter;
    let filtering = filter.is_some() || q.unicode_len() > 0;
    let mut out: Vec<ClientNavigatorRow> = Vec::new();
    let mut i: usize = 0;
    assert(rows_view(out@) =~= Seq::<NavigatorRowView>::empty());
    while i < snapshot.workspaces.len()
        invariant
            i <= snapshot.workspaces@.len(),
            q@ == query_of(*navigator),
            filter == navigator.filter,
            filtering == is_filtering(filter, q@),
            rows_view(out@) == workspace_rows_upto(*snapshot, *navigator, q@, i as int),
        decreases snapshot.workspaces@.len() - i,
    {
        let w = &snapshot.workspaces[i];
        let mut children: Vec<ClientNavigatorRow> = Vec::new();
        assert(rows_view(children@) =~= Seq::<NavigatorRowView>::empty());
        push_tab_rows(snapshot, filter, q.as_str(), w.workspace_id.as_str(), &mut children);
        assert(rows_view(children@) =~= tab_rows(*snapshot, filter, q@, w.workspace_id@, snapshot.tabs@.len() as int));
        let branch_matches = match &w.branch {
            Some(b) => exec_text_matches(q.as_str(), b.as_str()),
            None => false,
        };
        let matches = exec_status_passes(filter, w.agent_status) && (exec_text_matches(
            q.as_str(),
            w.label.as_str(),
        ) || branch_matches);
        if !filtering || matches || children.len() > 0 {
            let row = ClientNavigatorRow {
                depth: 0,
                label: w.label.clone(),
                meta: match &w.branch {
                    Some(b) => b.clone(),
                    None => String::new(),
                },
                status: w.agent_status,
                current: is_current(&snapshot.focused_workspace_id, w.workspace_id.as_str()),
                target: ClientNavigatorTarget::Workspace(w.workspace_id.clone()),
            };
            let ghost before = out@;
            out.push(row);
            let expanded = names_contain(navigator.expanded_workspaces.as_slice(), w.workspace_id.as_str());
            if expanded || filtering {
                let ghost cv = children@;
                out.append(&mut children);
                assert(rows_view(out@) =~= rows_view(before) + (seq![row@] + rows_view(cv))) by {
                    assert(out@ =~= before.push(row) + cv);
                }
            } else {
                assert(rows_view(out@) =~= rows_view(before) + (seq![row@] + Seq::<NavigatorRowView>::empty())) by {
                    assert(out@ =~= before.push(row));
                }
            }
        }
        i = i + 1;
    }
    out
}

/// Whether row `r` is the row of one of the snapshot's panes.
pub open spec fn from_pane(s: ClientShellSnapshot, r: NavigatorRowView) -> bool {
    exists|j: int, ix: nat| 0 <= j < s.panes@.len() && r == #[trigger] pane_row(s, s.panes@[j], ix)
}

/// Whether row `r` is a workspace row, a tab row or the row of one of the panes.
pub open spec fn row_of_snapshot(s: ClientShellSnapshot, r: NavigatorRowView) -> bool {
    r.target is Workspace || r.target is Tab || from_pane(s, r)
}

proof fn lemma_pane_rows_from_panes(
    s: ClientShellSnapshot,
    filter: Option<ClientNavigatorFilter>,
    q: Seq<char>,
    tab_id: Seq<char>,
    k: int,
)
    requires
        k <= s.panes@.len(),
    ensures
        forall|i: int| 0 <= i < pane_rows(s, filter, q, tab_id, k).len() ==> from_pane(
            s,
            #[trigger] pane_rows(s, filter, q, tab_id, k)[i],
        ),
    decreases k,
{
    if k > 0 {
        lemma_pane_rows_from_panes(s, filter, q, tab_id, k - 1);
        let prev = pane_rows(s, filter, q, tab_id, k - 1);
        let rows = pane_rows(s, filter, q, tab_id, k);
        let p = s.panes@[k - 1];
        let ix = count_in_tab(s.panes@.take(k - 1), tab_id);
        assert forall|i: int| 0 <= i < rows.len() implies from_pane(s, #[trigger] rows[i]) by {
            if i < prev.len() {
                assert(rows[i] == prev[i]);
            } else {
                assert(rows[i] == pane_row(s, p, ix));
                assert(from_pane(s, pane_row(s, s.panes@[k - 1], ix)));
            }
        }
    }
}

proof fn lemma_tab_rows_known(
    s: ClientShellSnapshot,
    filter: Option<ClientNavigatorFilter>,
    q: Seq<char>,
    ws_id: Seq<char>,
    k: int,
)
    requires
        k <= s.tabs@.len(),
    ensures
        forall|i: int| 0 <= i < tab_rows(s, filter, q, ws_id, k).len() ==> row_of_snapshot(
            s,
            #[trigger] tab_rows(s, filter, q, ws_id, k)[i],
        ),
    decreases k,
{
    if k > 0 {
        lemma_tab_rows_known(s, filter, q, ws_id, k - 1);
        let prev = tab_rows(s, filter, q, ws_id, k - 1);
        let rows = tab_rows(s, filter, q, ws_id, k);
        let t = s.tabs@[k - 1];
        let panes = pane_rows(s, filter, q, t.tab_id@, s.panes@.len() as int);
        lemma_pane_rows_from_panes(s, filter, q, t.tab_id@, s.panes@.len() as int);
        let block = tab_block(s, filter, q, t);
        assert forall|i: int| 0 <= i < block.len() implies row_of_snapshot(s, #[trigger] block[i]) by {
            if i > 0 {
                assert(block[i] == panes[i - 1]);
            }
        }
        assert forall|i: int| 0 <= i < rows.len() implies row_of_snapshot(s, #[trigger] rows[i]) by {
            if i < prev.len() {
                assert(rows[i] == prev[i]);
            } else {
                assert(rows[i] == block[i - prev.len()]);
            }
        }
    }
}

proof fn lemma_workspace_rows_known(s: ClientShellSnapshot, n: ClientNavigatorOverlay, q: Seq<char>, k: int)
    requires
        k <= s.workspaces@.len(),
    ensures
        forall|i: int| 0 <= i < workspace_rows_upto(s, n, q, k).len() ==> row_of_snapshot(
            s,
            #[trigger] workspace_rows_upto(s, n, q, k)[i],
        ),
    decreases k,
{
    if k > 0 {
        lemma_workspace_rows_known(s, n, q, k - 1);
        let prev = workspace_rows_upto(s, n, q, k - 1);
        let rows = workspace_rows_upto(s, n, q, k);
        let w = s.workspaces@[k - 1];
        let children = tab_rows(s, n.filter, q, w.workspace_id@, s.tabs@.len() as int);
        lemma_tab_rows_known(s, n.filter, q, w.workspace_id@, s.tabs@.len() as int);
        let block = workspace_block(s, n, q, w);
        assert forall|i: int| 0 <= i < block.len() implies row_of_snapshot(s, #[trigger] block[i]) by {
            if i > 0 {
                assert(block[i] == children[i - 1]);
            }
        }
        assert forall|i: int| 0 <= i < rows.len() implies row_of_snapshot(s, #[trigger] rows[i]) by {
            if i < prev.len() {
                assert(rows[i] == prev[i]);
            } else {
                assert(rows[i] == block[i - prev.len()]);
            }
        }
    }
}

/// Every pane row of the navigator is the row of one of the snapshot's panes, and
/// shows beside it the directory of that pane's foreground process when the
/// snapshot reports one, the pane's own directory otherwise, and nothing when it
/// reports neither.
pub proof fn lemma_pane_rows_show_the_foreground_directory(s: ClientShellSnapshot, n: ClientNavigatorOverlay)
    ensures
        forall|i: int|
            0 <= i < spec_navigator_rows(s, n).len() && #[trigger] spec_navigator_rows(s, n)[i].target is Pane
                ==> exists|j: int|
                0 <= j < s.panes@.len() && #[trigger] s.panes@[j].pane_id@ == spec_navigator_rows(
                    s,
                    n,
                )[i].target->Pane_0 && spec_navigator_rows(s, n)[i].meta == match s.panes@[j].foreground_cwd {
                    Some(f) => f@,
                    None => match s.panes@[j].cwd {
                        Some(c) => c@,
                        None => Seq::<char>::empty(),
                    },
                },
{
    let rows = spec_navigator_rows(s, n);
    lemma_workspace_rows_known(s, n, query_of(n), s.workspaces@.len() as int);
    assert forall|i: int| 0 <= i < rows.len() && #[trigger] rows[i].target is Pane implies exists|j: int|
        0 <= j < s.panes@.len() && #[trigger] s.panes@[j].pane_id@ == rows[i].target->Pane_0 && rows[i].meta
            == match s.panes@[j].foreground_cwd {
            Some(f) => f@,
            None => match s.panes@[j].cwd {
                Some(c) => c@,
                None => Seq::<char>::empty(),
            },
        } by {
        assert(row_of_snapshot(s, rows[i]));
        let (j, ix) = choose|j: int, ix: nat| 0 <= j < s.panes@.len() && rows[i] == #[trigger] pane_row(
            s,
            s.panes@[j],
            ix,
        );
        assert(s.panes@[j].pane_id@ == rows[i].target->Pane_0);
    }
}

} // verus!
