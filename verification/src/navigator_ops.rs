//! What the keys of the navigator overlay do to it: opening it on the current
//! row, moving the selection, folding a workspace, and choosing a row.
use vstd::prelude::*;

use crate::navigator::{
    client_navigator_rows, rows_view, spec_navigator_rows, ClientNavigatorTarget, NavigatorRowView,
    NavigatorTargetView,
};
use crate::overlay::ClientNavigatorOverlay;
use crate::snapshot::{opt_view, ClientShellSnapshot};
use crate::text::{names_contain, names_view, str_equal};

verus! {

/// The first row that is the focused workspace, tab or pane; 0 when none is.
pub open spec fn first_current(rows: Seq<NavigatorRowView>) -> int
    decreases rows.len(),
{
    if rows.len() == 0 {
        0
    } else if rows[0].current {
        0
    } else if exists|i: int| 0 <= i < rows.len() && #[trigger] rows[i].current {
        1 + first_current(rows.drop_first())
    } else {
        0
    }
}

/// The ids of the workspaces of `snapshot`, in order.
pub open spec fn workspace_ids(snapshot: ClientShellSnapshot) -> Seq<Seq<char>> {
    snapshot.workspaces@.map_values(|w: crate::snapshot::ClientShellWorkspace| w.workspace_id@)
}

/// The index of the first current row of `rows`, or 0.
fn first_current_row(rows: &Vec<crate::navigator::ClientNavigatorRow>) -> (r: usize)
    ensures
        r == first_current(rows_view(rows@)),
{
    let ghost v = rows_view(rows@);
    let mut i: usize = 0;
    while i < rows.len()
        invariant
            i <= rows@.len(),
            v == rows_view(rows@),
            v.len() == rows@.len(),
            forall|k: int| 0 <= k < i ==> !(#[trigger] v[k]).current,
        decreases rows@.len() - i,
    {
        assert(v[i as int] == rows@[i as int]@);
        if rows[i].current {
            proof {
                lemma_first_current_at(v, i as int);
            }
            return i;
        }
        i = i + 1;
    }
    proof {
        lemma_first_current_none(v);
    }
    0
}

/// When row `i` is the first current row, `first_current` is `i`.
proof fn lemma_first_current_at(rows: Seq<NavigatorRowView>, i: int)
    requires
        0 <= i < rows.len(),
        rows[i].current,
        forall|k: int| 0 <= k < i ==> !(#[trigger] rows[k]).current,
    ensures
        first_current(rows) == i,
    decreases i,
{
    if i > 0 {
        let rest = rows.drop_first();
        assert(rows[i].current);
        assert forall|k: int| 0 <= k < i - 1 implies !(#[trigger] rest[k]).current by {
            assert(rest[k] == rows[k + 1]);
        }
        assert(rest[i - 1] == rows[i]);
        lemma_first_current_at(rest, i - 1);
    }
}

/// When no row is current, `first_current` is 0.
proof fn lemma_first_current_none(rows: Seq<NavigatorRowView>)
    requires
        forall|k: int| 0 <= k < rows.len() ==> !(#[trigger] rows[k]).current,
    ensures
        first_current(rows) == 0,
{
}

/// The navigator as it opens: no query or filter, every workspace expanded, the
/// selection on the first current row (or the first row).
pub fn open_navigator_overlay(snapshot: &ClientShellSnapshot) -> (r: ClientNavigatorOverlay)
    ensures
        r.query@ == Seq::<char>::empty(),
        !r.search_focused,
        r.scroll == 0,
        r.filter is None,
        names_view(r.expanded_workspaces@) == workspace_ids(*snapshot),
        r.selected == first_current(
            spec_navigator_rows(*snapshot, ClientNavigatorOverlay { selected: 0, ..r }),
        ),
{
    let ws = &snapshot.workspaces;
    let mut expanded: Vec<String> = Vec::new();
    let mut i: usize = 0;
    while i < ws.len()
        invariant
            i <= ws@.len(),
            names_view(expanded@) == workspace_ids(*snapshot).take(i as int),
            ws@ == snapshot.workspaces@,
        decreases ws@.len() - i,
    {
        let ghost before = names_view(expanded@);
        expanded.push(ws[i].workspace_id.clone());
        assert(names_view(expanded@) =~= before.push(ws@[i as int].workspace_id@));
        assert(workspace_ids(*snapshot).take(i + 1) =~= workspace_ids(*snapshot).take(i as int).push(
            ws@[i as int].workspace_id@,
        ));
        i = i + 1;
    }
    assert(workspace_ids(*snapshot).take(ws@.len() as int) =~= workspace_ids(*snapshot));
    let mut navigator = ClientNavigatorOverlay {
        query: String::new(),
        search_focused: false,
        selected: 0,
        scroll: 0,
        filter: None,
        expanded_workspaces: expanded,
    };
    let rows = client_navigator_rows(snapshot, &navigator);
    navigator.selected = first_current_row(&rows);
    navigator
}

/// `selected + delta`, kept within the rows: 0 when there are none.
pub open spec fn moved_selection(selected: usize, delta: isize, len: nat) -> usize {
    if len == 0 {
        0
    } else if selected + delta < 0 {
        0
    } else if selected + delta > len - 1 {
        (len - 1) as usize
    } else {
        (selected + delta) as usize
    }
}

/// Moves the selection by `delta` rows, kept within the rows. Nothing else
/// changes.
pub fn move_navigator_selection(
    snapshot: &ClientShellSnapshot,
    navigator: &mut ClientNavigatorOverlay,
    delta: isize,
)
    requires
        old(navigator).selected <= isize::MAX,
        isize::MIN <= old(navigator).selected + delta <= isize::MAX,
    ensures
        *final(navigator) == (ClientNavigatorOverlay {
            selected: moved_selection(
                old(navigator).selected,
                delta,
                spec_navigator_rows(*snapshot, *old(navigator)).len(),
            ),
            ..*old(navigator)
        }),
{
    let rows = client_navigator_rows(snapshot, navigator);
    if rows.len() == 0 {
        navigator.selected = 0;
        return;
    }
    let last_int = rows.len() - 1;
    assert(rows_view(rows@).len() == rows@.len());
    let moved = navigator.selected as isize + delta;
    if moved < 0 {
        navigator.selected = 0;
    } else if rows.len() - 1 < moved as usize {
        navigator.selected = last_int;
    } else {
        navigator.selected = moved as usize;
    }
}

/// `names` without any copy of `id`.
pub open spec fn without_name(names: Seq<Seq<char>>, id: Seq<char>) -> Seq<Seq<char>>
    decreases names.len(),
{
    if names.len() == 0 {
        names
    } else {
        let rest = without_name(names.drop_last(), id);
        if names.last() == id {
            rest
        } else {
            rest.push(names.last())
        }
    }
}

/// `names` with `id` folded: removed when it is there, added when it is not.
pub open spec fn toggle_name(names: Seq<Seq<char>>, id: Seq<char>) -> Seq<Seq<char>> {
    if names.contains(id) {
        without_name(names, id)
    } else {
        names.push(id)
    }
}

/// The workspace the selected row of `rows` targets, if it is a workspace row.
pub open spec fn selected_workspace(rows: Seq<NavigatorRowView>, selected: usize) -> Option<Seq<char>> {
    if selected < rows.len() {
        match rows[selected as int].target {
            NavigatorTargetView::Workspace(id) => Some(id),
            _ => None,
        }
    } else {
        None
    }
}

/// `names` without any copy of `id`.
fn remove_name(names: &Vec<String>, id: &str) -> (r: Vec<String>)
    ensures
        names_view(r@) == without_name(names_view(names@), id@),
{
    let ghost nv = names_view(names@);
    let mut out: Vec<String> = Vec::new();
    let mut k: usize = 0;
    while k < names.len()
        invariant
            k <= names@.len(),
            nv == names_view(names@),
            names_view(out@) == without_name(nv.take(k as int), id@),
        decreases names@.len() - k,
    {
        assert(nv.take(k + 1).drop_last() =~= nv.take(k as int));
        assert(nv.take(k + 1).last() == names@[k as int]@);
        if !str_equal(names[k].as_str(), id) {
            let ghost before = names_view(out@);
            out.push(names[k].clone());
            assert(names_view(out@) =~= before.push(names@[k as int]@));
        }
        k = k + 1;
    }
    assert(nv.take(nv.len() as int) =~= nv);
    out
}

/// Folds or unfolds the workspace of the selected row, when it is a workspace
/// row, and moves the selection and the scroll back to the top; otherwise
/// nothing changes.
pub fn toggle_selected_navigator_workspace(snapshot: &ClientShellSnapshot, navigator: &mut ClientNavigatorOverlay)
    ensures
        match selected_workspace(spec_navigator_rows(*snapshot, *old(navigator)), old(navigator).selected) {
            Some(id) => {
                &&& names_view(final(navigator).expanded_workspaces@) == toggle_name(
                    names_view(old(navigator).expanded_workspaces@),
                    id,
                )
                &&& final(navigator).selected == 0
                &&& final(navigator).scroll == 0
                &&& final(navigator).query == old(navigator).query
                &&& final(navigator).search_focused == old(navigator).search_focused
                &&& final(navigator).filter == old(navigator).filter
            },
            None => *final(navigator) == *old(navigator),
        },
{
    let rows = client_navigator_rows(snapshot, navigator);
    let ghost rv = rows_view(rows@);
    if navigator.selected >= rows.len() {
        return;
    }
    assert(rv[navigator.selected as int] == rows@[navigator.selected as int]@);
    let id: String = match &rows[navigator.selected].target {
        ClientNavigatorTarget::Workspace(id) => id.clone(),
        _ => return,
    };
    if names_contain(navigator.expanded_workspaces.as_slice(), id.as_str()) {
        navigator.expanded_workspaces = remove_name(&navigator.expanded_workspaces, id.as_str());
    } else {
        let ghost before = names_view(navigator.expanded_workspaces@);
        let ghost idv = id@;
        navigator.expanded_workspaces.push(id);
        assert(names_view(navigator.expanded_workspaces@) =~= before.push(idv));
    }
    navigator.selected = 0;
    navigator.scroll = 0;
}

/// The target of the selected row, if the selection is on a row: choosing it
/// closes the navigator and focuses that workspace, tab or pane.
pub fn accept_navigator_selection(snapshot: &ClientShellSnapshot, navigator: &ClientNavigatorOverlay) -> (r:
    Option<ClientNavigatorTarget>)
    ensures
        match r {
            Some(t) => navigator.selected < spec_navigator_rows(*snapshot, *navigator).len()
                && spec_navigator_rows(*snapshot, *navigator)[navigator.selected as int].target
                == (match t {
                ClientNavigatorTarget::Workspace(id) => NavigatorTargetView::Workspace(id@),
                ClientNavigatorTarget::Tab(id) => NavigatorTargetView::Tab(id@),
                ClientNavigatorTarget::Pane(id) => NavigatorTargetView::Pane(id@),
            }),
            None => navigator.selected >= spec_navigator_rows(*snapshot, *navigator).len(),
        },
{
    let rows = client_navigator_rows(snapshot, navigator);
    let ghost rv = rows_view(rows@);
    if navigator.selected >= rows.len() {
        return None;
    }
    assert(rv[navigator.selected as int] == rows@[navigator.selected as int]@);
    let target = match &rows[navigator.selected].target {
        ClientNavigatorTarget::Workspace(id) => ClientNavigatorTarget::Workspace(id.clone()),
        ClientNavigatorTarget::Tab(id) => ClientNavigatorTarget::Tab(id.clone()),
        ClientNavigatorTarget::Pane(id) => ClientNavigatorTarget::Pane(id.clone()),
    };
    Some(target)
}

/// The workspace that workspace actions act on: the one being navigated, else
/// the focused one.
pub fn workspace_action_id(navigate_workspace_id: &Option<String>, snapshot: Option<&ClientShellSnapshot>) -> (r:
    Option<String>)
    ensures
        opt_view(r) == match navigate_workspace_id {
            Some(id) => Some(id@),
            None => match snapshot {
                Some(s) => opt_view(s.focused_workspace_id),
                None => None,
            },
        },
{
    match navigate_workspace_id {
        Some(id) => Some(id.clone()),
        None => match snapshot {
            Some(s) => match &s.focused_workspace_id {
                Some(f) => Some(f.clone()),
                None => None,
            },
            None => None,
        },
    }
}

/// Moving the selection never leaves the rows: with rows, it stays on one of
/// them.
pub proof fn lemma_selection_stays_on_a_row(selected: usize, delta: isize, len: nat)
    requires
        len > 0,
    ensures
        moved_selection(selected, delta, len) < len,
{
}

/// What `without_name` keeps: every name of `names` but `id`.
proof fn lemma_without_name(names: Seq<Seq<char>>, id: Seq<char>)
    ensures
        without_name(names, id).to_set() == names.to_set().remove(id),
        !without_name(names, id).contains(id),
    decreases names.len(),
{
    if names.len() == 0 {
        assert(names.to_set() =~= Set::<Seq<char>>::empty());
        assert(without_name(names, id).to_set() =~= names.to_set().remove(id));
    } else {
        let front = names.drop_last();
        lemma_without_name(front, id);
        assert(names =~= front.push(names.last()));
        front.lemma_push_to_set_commute(names.last());
        let rest = without_name(front, id);
        if names.last() != id {
            rest.lemma_push_to_set_commute(names.last());
            assert(without_name(names, id).to_set() =~= names.to_set().remove(id));
            assert forall|x: Seq<char>| rest.push(names.last()).contains(x) implies x != id by {
                if x == names.last() {
                } else {
                    let j = choose|j: int| 0 <= j < rest.push(names.last()).len() && rest.push(names.last())[j] == x;
                    assert(rest[j] == x);
                }
            }
        } else {
            assert(without_name(names, id).to_set() =~= names.to_set().remove(id));
        }
    }
}

/// Folding a workspace and then unfolding it (or the other way round) leaves
/// the same workspaces expanded.
pub proof fn lemma_toggle_twice_restores(names: Seq<Seq<char>>, id: Seq<char>)
    ensures
        toggle_name(toggle_name(names, id), id).to_set() == names.to_set(),
{
    lemma_without_name(names, id);
    if names.contains(id) {
        let t = without_name(names, id);
        assert(!t.contains(id));
        t.lemma_push_to_set_commute(id);
        assert(names.to_set().contains(id));
        assert(t.push(id).to_set() =~= names.to_set());
    } else {
        let t = names.push(id);
        assert(t.contains(id)) by {
            assert(t[names.len() as int] == id);
        }
        lemma_without_name(t, id);
        names.lemma_push_to_set_commute(id);
        assert(!names.to_set().contains(id));
        assert(without_name(t, id).to_set() =~= names.to_set());
    }
}

} // verus!
