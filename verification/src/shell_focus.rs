//! Stepping through the sidebar's workspaces in navigate mode, and through the
//! panes of the focused tab.
use vstd::prelude::*;

use crate::sidebar::{lemma_entries_name_known_workspaces, spec_workspace_entries, workspace_entries};
use crate::snapshot::{opt_view, ClientShellSnapshot};
use crate::text::names_view;
use crate::topology::{pane_surface_topology_signature, spec_topology_signature, PaneSurfaceFrame};
use crate::workspace_drop::{first_entry, first_entry_showing, has_entry};

verus! {

/// The workspace navigate mode lands on after moving `delta` rows from the one
/// it is on (the first row when it is on none), wrapping around the list.
/// None when the list is empty.
pub open spec fn navigate_target(
    snapshot: ClientShellSnapshot,
    collapsed: Seq<Seq<char>>,
    current_id: Option<Seq<char>>,
    delta: int,
) -> Option<Seq<char>> {
    let ws = snapshot.workspaces@;
    let entries = spec_workspace_entries(ws, collapsed);
    if entries.len() == 0 {
        None
    } else {
        let current = match current_id {
            Some(id) => if has_entry(ws, entries, id) {
                first_entry(ws, entries, id)
            } else {
                0
            },
            None => 0,
        };
        let next = (current + delta) % (entries.len() as int);
        Some(ws[entries[next].index as int].workspace_id@)
    }
}

/// Moves navigate mode `delta` rows through the sidebar's workspace list,
/// wrapping around; nothing changes when the list is empty.
pub fn move_navigate_workspace(
    snapshot: &ClientShellSnapshot,
    collapsed_groups: &[String],
    navigate_workspace_id: &mut Option<String>,
    delta: isize,
)
    requires
        isize::MIN + spec_workspace_entries(snapshot.workspaces@, names_view(collapsed_groups@)).len()
            <= delta <= isize::MAX - spec_workspace_entries(
            snapshot.workspaces@,
            names_view(collapsed_groups@),
        ).len(),
    ensures
        opt_view(*final(navigate_workspace_id)) == match navigate_target(
            *snapshot,
            names_view(collapsed_groups@),
            opt_view(*old(navigate_workspace_id)),
            delta as int,
        ) {
            Some(id) => Some(id),
            None => opt_view(*old(navigate_workspace_id)),
        },
{
    let ws = &snapshot.workspaces;
    let ws_len = ws.len();
    let entries = workspace_entries(snapshot, collapsed_groups);
    let ghost cv = names_view(collapsed_groups@);
    proof {
        lemma_entries_name_known_workspaces(ws@, cv);
    }
    if entries.len() == 0 {
        return;
    }
    let current: usize = match navigate_workspace_id {
        Some(selected) => match first_entry_showing(ws, &entries, selected.as_str()) {
            Some(k) => k,
            None => 0,
        },
        None => 0,
    };
    let n = entries.len();
    assert(current < n);
    let sum: isize = current as isize + delta;
    let next: usize = if sum >= 0 {
        (sum as usize) % n
    } else {
        let d: usize = (0 - sum) as usize;
        let dm = d % n;
        proof {
            let a = d as int / n as int + 1;
            vstd::arithmetic::div_mod::lemma_fundamental_div_mod(d as int, n as int);
            vstd::arithmetic::div_mod::lemma_mod_multiples_vanish(a, sum as int, n as int);
            assert(n as int * a + sum == n - dm) by (nonlinear_arith)
                requires
                    d as int == n as int * (d as int / n as int) + dm,
                    a == d as int / n as int + 1,
                    sum == -d,
            ;
        }
        (n - dm) % n
    };
    assert(next == (current + delta) % (n as int));
    let chosen = &ws[entries[next].index];
    *navigate_workspace_id = Some(chosen.workspace_id.clone());
}

/// Whether `i` is the first pane of `surface` with id `id`.
pub open spec fn is_first_pane(surface: PaneSurfaceFrame, id: Seq<char>, i: int) -> bool {
    &&& 0 <= i < surface.panes@.len()
    &&& surface.panes@[i].pane_id@ == id
    &&& forall|j: int| 0 <= j < i ==> surface.panes@[j].pane_id@ != id
}

/// The pane that focus moves to from the focused one (from the first when the
/// focused pane is not on the surface): the next pane, or the previous one when
/// `reverse`, wrapping around. None when the surface has no pane.
pub open spec fn cycle_target(snapshot: ClientShellSnapshot, surface: PaneSurfaceFrame, reverse: bool) -> Option<Seq<char>> {
    let n = surface.panes@.len() as int;
    if n == 0 {
        None
    } else {
        let current = match snapshot.focused_pane_id {
            Some(f) => if exists|i: int| #[trigger] is_first_pane(surface, f@, i) {
                choose|i: int| #[trigger] is_first_pane(surface, f@, i)
            } else {
                0
            },
            None => 0,
        };
        let next = if reverse {
            (current + n - 1) % n
        } else {
            (current + 1) % n
        };
        Some(surface.panes@[next].pane_id@)
    }
}

/// The first pane of `surface` with id `id`.
fn first_pane_with_id(surface: &PaneSurfaceFrame, id: &str) -> (r: Option<usize>)
    ensures
        match r {
            Some(k) => is_first_pane(*surface, id@, k as int),
            None => !(exists|i: int| #[trigger] is_first_pane(*surface, id@, i)),
        },
{
    let panes = &surface.panes;
    let mut k: usize = 0;
    while k < panes.len()
        invariant
            k <= panes@.len(),
            panes@ == surface.panes@,
            forall|j: int| 0 <= j < k ==> panes@[j].pane_id@ != id@,
        decreases panes@.len() - k,
    {
        if crate::text::str_equal(panes[k].pane_id.as_str(), id) {
            return Some(k);
        }
        k = k + 1;
    }
    proof {
        if exists|i: int| #[trigger] is_first_pane(*surface, id@, i) {
            let c = choose|i: int| #[trigger] is_first_pane(*surface, id@, i);
            assert(panes@[c].pane_id@ != id@);
        }
    }
    None
}

/// The pane to focus when cycling through the panes of the focused tab, as
/// `cycle_target` says.
pub fn cycle_pane(snapshot: &ClientShellSnapshot, surface: &PaneSurfaceFrame, reverse: bool) -> (r: Option<String>)
    ensures
        opt_view(r) == cycle_target(*snapshot, *surface, reverse),
{
    let panes = &surface.panes;
    let n = panes.len();
    if n == 0 {
        return None;
    }
    let current: usize = match &snapshot.focused_pane_id {
        Some(f) => match first_pane_with_id(surface, f.as_str()) {
            Some(k) => {
                proof {
                    let c = choose|i: int| #[trigger] is_first_pane(*surface, f@, i);
                    if c < k {
                        assert(panes@[c].pane_id@ != f@);
                    }
                    if k < c {
                        assert(panes@[k as int].pane_id@ != f@);
                    }
                }
                k
            },
            None => 0,
        },
        None => 0,
    };
    let next = if reverse {
        proof {
            if current == 0 {
                assert((current + n - 1) % (n as int) == n - 1) by (nonlinear_arith)
                    requires
                        current == 0,
                        n > 0,
                ;
            } else {
                assert((current + n - 1) % (n as int) == current - 1) by (nonlinear_arith)
                    requires
                        0 < current < n,
                ;
            }
        }
        if current == 0 {
            n - 1
        } else {
            current - 1
        }
    } else {
        (current + 1) % n
    };
    Some(panes[next].pane_id.clone())
}

/// Whether a split drawn for tab `tab_id` with topology `topology_signature`
/// still belongs to what is shown: None while the pane surface is of another
/// snapshot revision; otherwise whether the tab is the focused one and the
/// surface still has that topology.
pub fn pane_split_target_is_current(
    snapshot: &ClientShellSnapshot,
    surface: &PaneSurfaceFrame,
    topology_signature: u64,
    tab_id: &str,
) -> (r: Option<bool>)
    ensures
        r == if snapshot.revision != surface.projection_revision {
            None
        } else {
            Some(
                opt_view(snapshot.focused_tab_id) == Some(tab_id@) && spec_topology_signature(*surface)
                    == topology_signature,
            )
        },
{
    if snapshot.revision != surface.projection_revision {
        return None;
    }
    let focused = match &snapshot.focused_tab_id {
        Some(t) => crate::text::str_equal(t.as_str(), tab_id),
        None => false,
    };
    Some(focused && pane_surface_topology_signature(surface) == topology_signature)
}

/// Cycling back and then forward (or forward and then back) through `n` panes
/// returns to the pane it started from.
pub proof fn lemma_cycle_round_trip(current: int, n: int)
    requires
        0 <= current < n,
    ensures
        ((current + n - 1) % n + 1) % n == current,
        ((current + 1) % n + n - 1) % n == current,
{
    if current == 0 {
        assert((n - 1) % n == n - 1) by (nonlinear_arith)
            requires
                n > 0,
        ;
        assert(n % n == 0) by (nonlinear_arith)
            requires
                n > 0,
        ;
        if n == 1 {
        } else {
            assert(1int % n == 1) by (nonlinear_arith)
                requires
                    n > 1,
            ;
        }
    } else {
        assert((current + n - 1) % n == current - 1) by (nonlinear_arith)
            requires
                0 < current < n,
        ;
        assert(current % n == current) by (nonlinear_arith)
            requires
                0 < current < n,
        ;
        if current + 1 == n {
            assert(n % n == 0) by (nonlinear_arith)
                requires
                    n > 0,
            ;
            assert((n - 1) % n == n - 1) by (nonlinear_arith)
                requires
                    n > 0,
            ;
        } else {
            assert((current + 1) % n == current + 1) by (nonlinear_arith)
                requires
                    0 < current + 1 < n,
            ;
            assert((current + n) % n == current) by (nonlinear_arith)
                requires
                    0 < current < n,
            ;
        }
    }
}

} // verus!
