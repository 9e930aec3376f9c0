//! The confirmation asked before closing a workspace: what it closes (the
//! workspace, or its whole worktree group) and how many panes go with it.
use vstd::prelude::*;

use crate::overlay::ClientConfirmCloseOverlay;
use crate::sidebar::{key_members, lemma_members_facts, members};
use crate::snapshot::{ClientShellPane, ClientShellSnapshot, ClientShellWorkspace};
use crate::text::{concat, decimal, decimal_string, str_equal};
use crate::workspace_move::{first_with_id, is_first_id};

verus! {

/// The number of panes of `panes` in workspace `id`.
pub open spec fn panes_in(panes: Seq<ClientShellPane>, id: Seq<char>) -> nat
    decreases panes.len(),
{
    if panes.len() == 0 {
        0
    } else {
        panes_in(panes.drop_last(), id) + if panes.last().workspace_id@ == id {
            1nat
        } else {
            0nat
        }
    }
}

/// The number of panes in the workspaces at the positions `group` of `ws`.
pub open spec fn group_panes(ws: Seq<ClientShellWorkspace>, panes: Seq<ClientShellPane>, group: Seq<usize>) -> nat
    decreases group.len(),
{
    if group.len() == 0 {
        0
    } else {
        group_panes(ws, panes, group.drop_last()) + panes_in(panes, ws[group.last() as int].workspace_id@)
    }
}

/// The positions of the workspaces closed with the one at `i`: every checkout
/// of its repository when it is a main checkout, otherwise itself alone.
pub open spec fn close_group(ws: Seq<ClientShellWorkspace>, i: int) -> Seq<usize> {
    match ws[i].worktree {
        Some(wt) => if !wt.is_linked_worktree {
            members(ws, wt.key@)
        } else {
            seq![i as usize]
        },
        None => seq![i as usize],
    }
}

/// "1 pane", or the number and "panes".
pub open spec fn panes_text(n: nat) -> Seq<char> {
    if n == 1 {
        "1 pane"@
    } else {
        decimal(n) + " panes"@
    }
}

/// The confirmation for closing workspace `workspace_id`, as title and detail:
/// the workspace's label, then how many workspaces (when it closes a worktree
/// group) and panes go. None when the snapshot has no such workspace.
pub open spec fn confirm_close_text(snapshot: ClientShellSnapshot, workspace_id: Seq<char>) -> Option<(Seq<char>, Seq<char>)> {
    let ws = snapshot.workspaces@;
    if !(exists|i: int| #[trigger] is_first_id(ws, workspace_id, i)) {
        None
    } else {
        let i = choose|i: int| #[trigger] is_first_id(ws, workspace_id, i);
        let group = close_group(ws, i);
        let panes = panes_text(group_panes(ws, snapshot.panes@, group));
        let closes_group = group.len() > 1;
        let scope = if closes_group {
            decimal(group.len()) + " workspaces, "@ + panes
        } else {
            panes
        };
        let title = if closes_group {
            "Close worktree group?"@
        } else {
            "Close workspace?"@
        };
        Some((title, ws[i].label@ + " \u{2014} "@ + scope))
    }
}

/// The number of panes in workspace `id`.
fn count_panes_in(panes: &Vec<ClientShellPane>, id: &str) -> (r: usize)
    ensures
        r == panes_in(panes@, id@),
        r <= panes@.len(),
{
    let mut cnt: usize = 0;
    let mut k: usize = 0;
    while k < panes.len()
        invariant
            k <= panes@.len(),
            cnt <= k,
            cnt == panes_in(panes@.take(k as int), id@),
        decreases panes@.len() - k,
    {
        assert(panes@.take(k + 1).drop_last() =~= panes@.take(k as int));
        if str_equal(panes[k].workspace_id.as_str(), id) {
            cnt = cnt + 1;
        }
        k = k + 1;
    }
    assert(panes@.take(panes@.len() as int) =~= panes@);
    cnt
}

/// The confirmation to show before closing workspace `workspace_id`, as
/// `confirm_close_text` says; None when the snapshot has no such workspace.
pub fn open_confirm_close_overlay(snapshot: &ClientShellSnapshot, workspace_id: String) -> (r: Option<
    ClientConfirmCloseOverlay,
>)
    requires
        forall|i: int|
            #[trigger] is_first_id(snapshot.workspaces@, workspace_id@, i) ==> group_panes(
                snapshot.workspaces@,
                snapshot.panes@,
                close_group(snapshot.workspaces@, i),
            ) <= usize::MAX,
    ensures
        match r {
            Some(o) => o.workspace_id@ == workspace_id@ && confirm_close_text(*snapshot, workspace_id@)
                == Some((o.title@, o.detail@)),
            None => confirm_close_text(*snapshot, workspace_id@) is None,
        },
{
    let ws = &snapshot.workspaces;
    let ws_len = ws.len();
    let i = match first_with_id(ws, workspace_id.as_str()) {
        Some(i) => i,
        None => return None,
    };
    proof {
        let c = choose|k: int| #[trigger] is_first_id(ws@, workspace_id@, k);
        if c < i {
            assert(ws@[c].workspace_id@ != workspace_id@);
        }
        if i < c {
            assert(ws@[i as int].workspace_id@ != workspace_id@);
        }
    }
    let workspace = &ws[i];
    let group: Vec<usize> = match &workspace.worktree {
        Some(wt) => if !wt.is_linked_worktree {
            let ms = key_members(ws, wt.key.as_str());
            proof {
                lemma_members_facts(ws@, wt.key@);
            }
            ms
        } else {
            vec![i]
        },
        None => vec![i],
    };
    assert(group@ == close_group(ws@, i as int));
    assert(forall|k: int| 0 <= k < group@.len() ==> (#[trigger] group@[k]) < ws@.len());
    let ghost total = group_panes(ws@, snapshot.panes@, group@);
    let mut pane_count: usize = 0;
    let mut k: usize = 0;
    while k < group.len()
        invariant
            k <= group@.len(),
            forall|q: int| 0 <= q < group@.len() ==> (#[trigger] group@[q]) < ws@.len(),
            total == group_panes(ws@, snapshot.panes@, group@),
            total <= usize::MAX,
            group_panes(ws@, snapshot.panes@, group@.take(k as int)) <= total,
            pane_count == group_panes(ws@, snapshot.panes@, group@.take(k as int)),
        decreases group@.len() - k,
    {
        assert(group@.take(k + 1).drop_last() =~= group@.take(k as int));
        assert(group@[k as int] < ws@.len());
        let n = count_panes_in(&snapshot.panes, ws[group[k]].workspace_id.as_str());
        proof {
            lemma_group_panes_prefix(ws@, snapshot.panes@, group@, k + 1);
        }
        pane_count = pane_count + n;
        k = k + 1;
    }
    assert(group@.take(group@.len() as int) =~= group@);
    let panes = if pane_count == 1 {
        "1 pane".to_string()
    } else {
        let digits = decimal_string(pane_count);
        concat(digits.as_str(), " panes")
    };
    let closes_group = group.len() > 1;
    let scope = if closes_group {
        let digits = decimal_string(group.len());
        let lead = concat(digits.as_str(), " workspaces, ");
        concat(lead.as_str(), panes.as_str())
    } else {
        panes
    };
    let title = if closes_group {
        "Close worktree group?".to_string()
    } else {
        "Close workspace?".to_string()
    };
    let lead = concat(workspace.label.as_str(), " \u{2014} ");
    let detail = concat(lead.as_str(), scope.as_str());
    Some(ClientConfirmCloseOverlay { workspace_id, title, detail })
}

/// The panes of a prefix of the group are no more than those of the group.
proof fn lemma_group_panes_prefix(
    ws: Seq<ClientShellWorkspace>,
    panes: Seq<ClientShellPane>,
    group: Seq<usize>,
    k: int,
)
    requires
        0 <= k <= group.len(),
    ensures
        group_panes(ws, panes, group.take(k)) <= group_panes(ws, panes, group),
    decreases group.len(),
{
    if k < group.len() {
        assert(group.drop_last().take(k) =~= group.take(k));
        lemma_group_panes_prefix(ws, panes, group.drop_last(), k);
    } else {
        assert(group.take(k) =~= group);
    }
}

} // verus!
