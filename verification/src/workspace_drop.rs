//! Where a workspace dragged in the sidebar is dropped: before which workspace
//! it lands, and the row the drop marker is drawn on.
use vstd::prelude::*;

use crate::geometry::{sat_sub, Rect};
use crate::sidebar::{spec_workspace_entries, workspace_entries, WorkspaceEntry};
use crate::snapshot::{opt_view, ClientShellSnapshot, ClientShellWorkspace};
use crate::text::{names_view, str_equal};

verus! {

/// A workspace row drawn in the sidebar.
#[derive(Clone, Debug)]
pub struct WorkspaceHit {
    pub rect: Rect,
    pub workspace_id: String,
    /// Drawn as a linked worktree under its main checkout.
    pub indented: bool,
}

/// The gap above each row that is not indented: before that workspace, on the
/// row above it.
pub open spec fn root_slots(hits: Seq<WorkspaceHit>) -> Seq<(Option<Seq<char>>, u16)>
    decreases hits.len(),
{
    if hits.len() == 0 {
        Seq::empty()
    } else {
        let rest = root_slots(hits.drop_last());
        let h = hits.last();
        if h.indented {
            rest
        } else {
            rest.push((Some(h.workspace_id@), sat_sub(h.rect.y, 1)))
        }
    }
}

/// How far row `a` is from row `b`.
pub open spec fn row_distance(a: u16, b: u16) -> int {
    if a < b {
        b - a
    } else {
        a - b
    }
}

/// The slot nearest to row `y`; the first of those equally near.
pub open spec fn nearest_slot(slots: Seq<(Option<Seq<char>>, u16)>, y: u16) -> Option<(Option<Seq<char>>, u16)>
    decreases slots.len(),
{
    if slots.len() == 0 {
        None
    } else {
        match nearest_slot(slots.drop_last(), y) {
            None => Some(slots.last()),
            Some(best) => if row_distance(y, slots.last().1) < row_distance(y, best.1) {
                Some(slots.last())
            } else {
                Some(best)
            },
        }
    }
}

/// Whether sidebar entry `e` shows the workspace with id `id`.
pub open spec fn entry_shows(ws: Seq<ClientShellWorkspace>, e: WorkspaceEntry, id: Seq<char>) -> bool {
    e.index < ws.len() && ws[e.index as int].workspace_id@ == id
}

/// Whether `k` is the first entry of `entries` that shows workspace `id`.
pub open spec fn is_first_entry(
    ws: Seq<ClientShellWorkspace>,
    entries: Seq<WorkspaceEntry>,
    id: Seq<char>,
    k: int,
) -> bool {
    &&& 0 <= k < entries.len()
    &&& entry_shows(ws, entries[k], id)
    &&& forall|j: int| 0 <= j < k ==> !entry_shows(ws, entries[j], id)
}

/// Whether some entry of `entries` shows workspace `id`.
pub open spec fn has_entry(ws: Seq<ClientShellWorkspace>, entries: Seq<WorkspaceEntry>, id: Seq<char>) -> bool {
    exists|k: int| #[trigger] is_first_entry(ws, entries, id, k)
}

/// The first entry that shows workspace `id`, when `has_entry` holds.
pub open spec fn first_entry(ws: Seq<ClientShellWorkspace>, entries: Seq<WorkspaceEntry>, id: Seq<char>) -> int {
    choose|k: int| #[trigger] is_first_entry(ws, entries, id, k)
}

/// The slots a drop can land in: the gap above each row that is not indented,
/// and, unless the last drawn row is followed by an indented entry, the gap
/// below it (before the entry after it, or at the end), if that gap is above the
/// new-workspace row. None when the last drawn row is no entry of the list.
pub open spec fn drop_slots(
    ws: Seq<ClientShellWorkspace>,
    entries: Seq<WorkspaceEntry>,
    hits: Seq<WorkspaceHit>,
    new_workspace: Rect,
) -> Option<Seq<(Option<Seq<char>>, u16)>> {
    let base = root_slots(hits);
    if hits.len() == 0 || !has_entry(ws, entries, hits.last().workspace_id@) {
        None
    } else {
        let k = first_entry(ws, entries, hits.last().workspace_id@);
        if k + 1 < entries.len() && entries[k + 1].indented {
            Some(base)
        } else {
            let before = if k + 1 < entries.len() && entries[k + 1].index < ws.len() {
                Some(ws[entries[k + 1].index as int].workspace_id@)
            } else {
                None
            };
            let row = hits.last().rect.spec_bottom();
            if row < new_workspace.y {
                Some(base.push((before, row)))
            } else {
                Some(base)
            }
        }
    }
}

/// Where a workspace dropped at `point` lands: the nearest slot to the pointer's
/// row, or none when the pointer is outside the list (above its body, or on or
/// below the new-workspace row) or the list is empty.
pub open spec fn workspace_drop_target(
    ws: Seq<ClientShellWorkspace>,
    collapsed: Seq<Seq<char>>,
    hits: Seq<WorkspaceHit>,
    body: Rect,
    new_workspace: Rect,
    point: (u16, u16),
) -> Option<(Option<Seq<char>>, u16)> {
    if body.height == 0 || point.1 < sat_sub(body.y, 1) || point.1 >= new_workspace.y {
        None
    } else {
        match drop_slots(ws, spec_workspace_entries(ws, collapsed), hits, new_workspace) {
            None => None,
            Some(slots) => nearest_slot(slots, point.1),
        }
    }
}

/// A slot as plain values.
pub open spec fn slot_view(s: (Option<String>, u16)) -> (Option<Seq<char>>, u16) {
    (opt_view(s.0), s.1)
}

/// The slots above the rows of `hits` that are not indented.
fn root_slot_list(hits: &[WorkspaceHit]) -> (r: Vec<(Option<String>, u16)>)
    ensures
        r@.map_values(|e: (Option<String>, u16)| slot_view(e)) == root_slots(hits@),
{
    let mut out: Vec<(Option<String>, u16)> = Vec::new();
    let mut k: usize = 0;
    while k < hits.len()
        invariant
            k <= hits@.len(),
            out@.map_values(|e: (Option<String>, u16)| slot_view(e)) == root_slots(hits@.take(k as int)),
        decreases hits@.len() - k,
    {
        assert(hits@.take(k + 1).drop_last() =~= hits@.take(k as int));
        let h = &hits[k];
        if !h.indented {
            let ghost before = out@.map_values(|e: (Option<String>, u16)| slot_view(e));
            out.push((Some(h.workspace_id.clone()), h.rect.y.saturating_sub(1)));
            assert(out@.map_values(|e: (Option<String>, u16)| slot_view(e)) =~= before.push(
                (Some(h.workspace_id@), sat_sub(h.rect.y, 1)),
            ));
        }
        k = k + 1;
    }
    assert(hits@.take(hits@.len() as int) =~= hits@);
    out
}

/// The first entry of `entries` that shows workspace `id`.
pub(crate) fn first_entry_showing(ws: &Vec<ClientShellWorkspace>, entries: &Vec<WorkspaceEntry>, id: &str) -> (r: Option<usize>)
    ensures
        match r {
            Some(k) => has_entry(ws@, entries@, id@) && first_entry(ws@, entries@, id@) == k,
            None => !has_entry(ws@, entries@, id@),
        },
{
    let mut k: usize = 0;
    while k < entries.len()
        invariant
            k <= entries@.len(),
            forall|j: int| 0 <= j < k ==> !entry_shows(ws@, entries@[j], id@),
        decreases entries@.len() - k,
    {
        let e = entries[k];
        if e.index < ws.len() && str_equal(ws[e.index].workspace_id.as_str(), id) {
            proof {
                assert(is_first_entry(ws@, entries@, id@, k as int));
                let c = first_entry(ws@, entries@, id@);
                if c < k {
                    assert(!entry_shows(ws@, entries@[c], id@));
                }
                if k < c {
                    assert(!entry_shows(ws@, entries@[k as int], id@));
                }
            }
            return Some(k);
        }
        k = k + 1;
    }
    proof {
        if has_entry(ws@, entries@, id@) {
            let c = first_entry(ws@, entries@, id@);
            assert(!entry_shows(ws@, entries@[c], id@));
        }
    }
    None
}

/// How far row `a` is from row `b`.
fn distance(a: u16, b: u16) -> (r: u16)
    ensures
        r == row_distance(a, b),
{
    if a < b {
        b - a
    } else {
        a - b
    }
}

/// The slot of `slots` nearest to row `y`, as `nearest_slot` says.
fn take_nearest(slots: Vec<(Option<String>, u16)>, y: u16) -> (r: Option<(Option<String>, u16)>)
    ensures
        match r {
            Some(s) => nearest_slot(slots@.map_values(|e: (Option<String>, u16)| slot_view(e)), y)
                == Some(slot_view(s)),
            None => nearest_slot(slots@.map_values(|e: (Option<String>, u16)| slot_view(e)), y) is None,
        },
{
    let ghost sv = slots@.map_values(|e: (Option<String>, u16)| slot_view(e));
    if slots.len() == 0 {
        return None;
    }
    let mut best: usize = 0;
    let mut k: usize = 1;
    assert(sv.len() == slots@.len());
    assert(sv.take(1).len() == 1);
    assert(sv.take(1).drop_last() =~= Seq::<(Option<Seq<char>>, u16)>::empty());
    assert(nearest_slot(sv.take(1).drop_last(), y) is None);
    assert(sv.take(1).last() == sv[0]);
    assert(nearest_slot(sv.take(1), y) == Some(sv[0]));
    while k < slots.len()
        invariant
            1 <= k <= slots@.len(),
            best < k,
            sv == slots@.map_values(|e: (Option<String>, u16)| slot_view(e)),
            nearest_slot(sv.take(k as int), y) == Some(sv[best as int]),
        decreases slots@.len() - k,
    {
        assert(sv.take(k + 1).drop_last() =~= sv.take(k as int));
        assert(sv.take(k + 1).last() == sv[k as int]);
        if distance(y, slots[k].1) < distance(y, slots[best].1) {
            best = k;
        }
        k = k + 1;
    }
    assert(sv.take(sv.len() as int) =~= sv);
    let mut slots = slots;
    let chosen = slots.remove(best);
    Some(chosen)
}

/// Where a workspace dropped at `point` lands, as `workspace_drop_target` says:
/// the workspace it is dropped before (none at the end of the list) and the row
/// of the drop marker. `hits` are the drawn workspace rows, `workspace_body` the
/// list's area and `new_workspace` the new-workspace row below it.
pub fn workspace_drop_target_at(
    snapshot: &ClientShellSnapshot,
    collapsed_groups: &[String],
    hits: &[WorkspaceHit],
    workspace_body: Rect,
    new_workspace: Rect,
    point: (u16, u16),
) -> (r: Option<(Option<String>, u16)>)
    ensures
        match r {
            Some(s) => workspace_drop_target(
                snapshot.workspaces@,
                names_view(collapsed_groups@),
                hits@,
                workspace_body,
                new_workspace,
                point,
            ) == Some(slot_view(s)),
            None => workspace_drop_target(
                snapshot.workspaces@,
                names_view(collapsed_groups@),
                hits@,
                workspace_body,
                new_workspace,
                point,
            ) is None,
        },
{
    if workspace_body.height == 0 || point.1 < workspace_body.y.saturating_sub(1)
        || point.1 >= new_workspace.y {
        return None;
    }
    let mut slots = root_slot_list(hits);
    let ws = &snapshot.workspaces;
    let entries = workspace_entries(snapshot, collapsed_groups);
    if hits.len() == 0 {
        return None;
    }
    let last_hit = &hits[hits.len() - 1];
    assert(hits@.last() == hits@[hits@.len() - 1]);
    let last_position = match first_entry_showing(ws, &entries, last_hit.workspace_id.as_str()) {
        Some(k) => k,
        None => return None,
    };
    let ghost base = slots@.map_values(|e: (Option<String>, u16)| slot_view(e));
    let has_next = last_position + 1 < entries.len();
    if !(has_next && entries[last_position + 1].indented) {
        let before: Option<String> = if has_next && entries[last_position + 1].index < ws.len() {
            Some(ws[entries[last_position + 1].index].workspace_id.clone())
        } else {
            None
        };
        let row = last_hit.rect.bottom();
        if row < new_workspace.y {
            slots.push((before, row));
            assert(slots@.map_values(|e: (Option<String>, u16)| slot_view(e)) =~= base.push(
                slot_view(slots@.last()),
            ));
        }
    }
    take_nearest(slots, point.1)
}

/// The slot a drop lands in is one of the slots, and none is nearer to the
/// pointer's row.
pub proof fn lemma_nearest_slot_is_nearest(slots: Seq<(Option<Seq<char>>, u16)>, y: u16)
    ensures
        match nearest_slot(slots, y) {
            Some(b) => slots.contains(b) && forall|k: int|
                0 <= k < slots.len() ==> row_distance(y, b.1) <= row_distance(y, #[trigger] slots[k].1),
            None => slots.len() == 0,
        },
    decreases slots.len(),
{
    if slots.len() > 0 {
        let front = slots.drop_last();
        lemma_nearest_slot_is_nearest(front, y);
        let last = slots.last();
        assert(slots[slots.len() - 1] == last);
        match nearest_slot(front, y) {
            None => {},
            Some(best) => {
                let j = choose|j: int| 0 <= j < front.len() && front[j] == best;
                assert(slots[j] == best);
                assert forall|k: int| 0 <= k < slots.len() implies row_distance(
                    y,
                    (nearest_slot(slots, y)->0).1,
                ) <= row_distance(y, #[trigger] slots[k].1) by {
                    if k < front.len() {
                        assert(slots[k] == front[k]);
                    }
                }
            },
        }
    }
}

} // verus!
