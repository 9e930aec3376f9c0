//! Where a tab dragged along the tab bar is dropped: the index it is inserted
//! at among the tabs of the focused workspace.
use vstd::prelude::*;

use crate::geometry::{contains, sat_sub, spec_contains, Rect};
use crate::snapshot::{ClientShellSnapshot, ClientShellTab};
use crate::text::str_equal;

verus! {

/// Whether tab `t` belongs to workspace `w`.
pub open spec fn in_workspace(t: ClientShellTab, w: Seq<char>) -> bool {
    t.workspace_id@ == w
}

/// The number of tabs of `tabs` that belong to workspace `w`.
pub open spec fn tab_count(tabs: Seq<ClientShellTab>, w: Seq<char>) -> nat
    decreases tabs.len(),
{
    if tabs.len() == 0 {
        0
    } else {
        tab_count(tabs.drop_last(), w) + if in_workspace(tabs.last(), w) {
            1nat
        } else {
            0nat
        }
    }
}

/// Whether `p` is the first index of `tabs` holding tab `id` of workspace `w`.
pub open spec fn is_first_tab(tabs: Seq<ClientShellTab>, w: Seq<char>, id: Seq<char>, p: int) -> bool {
    &&& 0 <= p < tabs.len()
    &&& in_workspace(tabs[p], w)
    &&& tabs[p].tab_id@ == id
    &&& forall|j: int| 0 <= j < p ==> !(in_workspace(tabs[j], w) && tabs[j].tab_id@ == id)
}

/// Whether workspace `w` has a tab `id`.
pub open spec fn has_tab(tabs: Seq<ClientShellTab>, w: Seq<char>, id: Seq<char>) -> bool {
    exists|p: int| #[trigger] is_first_tab(tabs, w, id, p)
}

/// The first index of tab `id` of workspace `w`, when `has_tab` holds.
pub open spec fn first_tab(tabs: Seq<ClientShellTab>, w: Seq<char>, id: Seq<char>) -> int {
    choose|p: int| #[trigger] is_first_tab(tabs, w, id, p)
}

/// The position of tab `id` among the tabs of workspace `w`.
pub open spec fn tab_position(tabs: Seq<ClientShellTab>, w: Seq<char>, id: Seq<char>) -> Option<int> {
    if has_tab(tabs, w, id) {
        Some(tab_count(tabs.take(first_tab(tabs, w, id)), w) as int)
    } else {
        None
    }
}

/// The tabs drawn on the bar, in order: the position of each among the tabs of
/// workspace `w` and the cells it covers (drawn tabs `w` lacks are left out).
pub open spec fn visible_tabs(tabs: Seq<ClientShellTab>, w: Seq<char>, hits: Seq<(Rect, String)>) -> Seq<(int, Rect)>
    decreases hits.len(),
{
    if hits.len() == 0 {
        Seq::empty()
    } else {
        let rest = visible_tabs(tabs, w, hits.drop_last());
        match tab_position(tabs, w, hits.last().1@) {
            Some(i) => rest.push((i, hits.last().0)),
            None => rest,
        }
    }
}

/// The first drawn tab whose left half or right half holds column `x`: the
/// index before it, or after it.
pub open spec fn scan_tabs(v: Seq<(int, Rect)>, x: u16) -> Option<int>
    decreases v.len(),
{
    if v.len() == 0 {
        None
    } else {
        match scan_tabs(v.drop_last(), x) {
            Some(r) => Some(r),
            None => {
                let (i, r) = v.last();
                if x < r.x + r.width / 2 {
                    Some(i)
                } else if x < r.spec_right() {
                    Some(i + 1)
                } else {
                    None
                }
            },
        }
    }
}

/// The index at which a tab dropped at `point` lands among the tabs of the
/// focused workspace: none off the tab row or without drawn tabs; the start or
/// end on the scroll arrows; the first or after the last drawn tab beyond the
/// drawn ones; otherwise before the tab whose left half holds the column, or
/// after the one whose right half does.
pub open spec fn tab_drop_index(
    snapshot: ClientShellSnapshot,
    hits: Seq<(Rect, String)>,
    left: Rect,
    right: Rect,
    point: (u16, u16),
) -> Option<int> {
    match snapshot.focused_workspace_id {
        None => None,
        Some(ws) => {
            let tabs = snapshot.tabs@;
            let w = ws@;
            let v = visible_tabs(tabs, w, hits);
            let n = tab_count(tabs, w);
            if v.len() == 0 {
                None
            } else {
                let (fi, fr) = v[0];
                let (li, lr) = v.last();
                if point.1 != fr.y {
                    None
                } else if spec_contains(left, point) {
                    Some(0)
                } else if spec_contains(right, point) {
                    Some(n as int)
                } else {
                    let left_edge = if fi == 0 {
                        fr.x
                    } else {
                        left.spec_right()
                    };
                    let right_edge = if li + 1 >= n {
                        lr.spec_right()
                    } else {
                        sat_sub(right.x, 1)
                    };
                    if point.0 <= left_edge {
                        Some(fi)
                    } else if point.0 >= right_edge {
                        Some(li + 1)
                    } else {
                        match scan_tabs(v, point.0) {
                            Some(r) => Some(r),
                            None => Some(li + 1),
                        }
                    }
                }
            }
        },
    }
}

/// The number of tabs of workspace `w`.
pub(crate) fn count_tabs(tabs: &Vec<ClientShellTab>, w: &str) -> (r: usize)
    ensures
        r == tab_count(tabs@, w@),
        r <= tabs@.len(),
{
    let mut cnt: usize = 0;
    let mut j: usize = 0;
    while j < tabs.len()
        invariant
            j <= tabs@.len(),
            cnt <= j,
            cnt == tab_count(tabs@.take(j as int), w@),
        decreases tabs@.len() - j,
    {
        assert(tabs@.take(j + 1).drop_last() =~= tabs@.take(j as int));
        if str_equal(tabs[j].workspace_id.as_str(), w) {
            cnt = cnt + 1;
        }
        j = j + 1;
    }
    assert(tabs@.take(tabs@.len() as int) =~= tabs@);
    cnt
}

/// The position of tab `id` among the tabs of workspace `w`.
pub(crate) fn position_of_tab(tabs: &Vec<ClientShellTab>, w: &str, id: &str) -> (r: Option<usize>)
    ensures
        match r {
            Some(p) => tab_position(tabs@, w@, id@) == Some(p as int) && p < tabs@.len(),
            None => tab_position(tabs@, w@, id@) is None,
        },
{
    let mut cnt: usize = 0;
    let mut j: usize = 0;
    while j < tabs.len()
        invariant
            j <= tabs@.len(),
            cnt <= j,
            cnt == tab_count(tabs@.take(j as int), w@),
            forall|k: int|
                0 <= k < j ==> !(in_workspace(tabs@[k], w@) && tabs@[k].tab_id@ == id@),
        decreases tabs@.len() - j,
    {
        assert(tabs@.take(j + 1).drop_last() =~= tabs@.take(j as int));
        let mine = str_equal(tabs[j].workspace_id.as_str(), w);
        if mine && str_equal(tabs[j].tab_id.as_str(), id) {
            proof {
                assert(is_first_tab(tabs@, w@, id@, j as int));
                let p = first_tab(tabs@, w@, id@);
                if p < j {
                    assert(!(in_workspace(tabs@[p], w@) && tabs@[p].tab_id@ == id@));
                }
                if j < p {
                    assert(!(in_workspace(tabs@[j as int], w@) && tabs@[j as int].tab_id@ == id@));
                }
            }
            return Some(cnt);
        }
        if mine {
            cnt = cnt + 1;
        }
        j = j + 1;
    }
    proof {
        if has_tab(tabs@, w@, id@) {
            let p = first_tab(tabs@, w@, id@);
            assert(!(in_workspace(tabs@[p], w@) && tabs@[p].tab_id@ == id@));
        }
    }
    None
}

/// Once a prefix of `v` settles the scan, the whole of `v` gives the same answer.
proof fn lemma_scan_prefix(v: Seq<(int, Rect)>, k: int, x: u16)
    requires
        0 <= k <= v.len(),
        scan_tabs(v.take(k), x) is Some,
    ensures
        scan_tabs(v, x) == scan_tabs(v.take(k), x),
    decreases v.len(),
{
    if k < v.len() {
        assert(v.drop_last().take(k) =~= v.take(k));
        lemma_scan_prefix(v.drop_last(), k, x);
    } else {
        assert(v.take(k) =~= v);
    }
}

/// The index at which a tab dropped at `point` lands among the tabs of the
/// focused workspace, as `tab_drop_index` says. `tab_hits` are the drawn tabs
/// with the id of each, `tab_scroll_left` and `tab_scroll_right` the scroll
/// arrows of the bar.
pub fn tab_drop_index_at(
    snapshot: &ClientShellSnapshot,
    tab_hits: &[(Rect, String)],
    tab_scroll_left: Rect,
    tab_scroll_right: Rect,
    point: (u16, u16),
) -> (r: Option<usize>)
    requires
        forall|k: int|
            0 <= k < tab_hits@.len() ==> (#[trigger] tab_hits@[k]).0.x + tab_hits@[k].0.width
                <= u16::MAX,
    ensures
        match r {
            Some(i) => tab_drop_index(
                *snapshot,
                tab_hits@,
                tab_scroll_left,
                tab_scroll_right,
                point,
            ) == Some(i as int),
            None => tab_drop_index(
                *snapshot,
                tab_hits@,
                tab_scroll_left,
                tab_scroll_right,
                point,
            ) is None,
        },
{
    let w = match &snapshot.focused_workspace_id {
        Some(w) => w.as_str(),
        None => return None,
    };
    let tabs = &snapshot.tabs;
    let tabs_len = tabs.len();
    let n = count_tabs(tabs, w);
    let mut visible: Vec<(usize, Rect)> = Vec::new();
    let mut k: usize = 0;
    while k < tab_hits.len()
        invariant
            k <= tab_hits@.len(),
            visible@.len() <= k,
            forall|m: int| 0 <= m < visible@.len() ==> (#[trigger] visible@[m]).0 < tabs@.len(),
            forall|m: int|
                0 <= m < visible@.len() ==> (#[trigger] visible@[m]).1.x + visible@[m].1.width
                    <= u16::MAX,
            forall|q: int|
                0 <= q < tab_hits@.len() ==> (#[trigger] tab_hits@[q]).0.x + tab_hits@[q].0.width
                    <= u16::MAX,
            visible@.map_values(|e: (usize, Rect)| (e.0 as int, e.1)) == visible_tabs(
                tabs@,
                w@,
                tab_hits@.take(k as int),
            ),
        decreases tab_hits@.len() - k,
    {
        assert(tab_hits@.take(k + 1).drop_last() =~= tab_hits@.take(k as int));
        let (rect, tab_id) = &tab_hits[k];
        assert(tab_hits@[k as int].0.x + tab_hits@[k as int].0.width <= u16::MAX);
        match position_of_tab(tabs, w, tab_id.as_str()) {
            Some(p) => {
                let ghost old_v = visible@;
                visible.push((p, *rect));
                assert(visible@.map_values(|e: (usize, Rect)| (e.0 as int, e.1)) =~= old_v.map_values(
                    |e: (usize, Rect)| (e.0 as int, e.1),
                ).push((p as int, *rect)));
            },
            None => {},
        }
        k = k + 1;
    }
    assert(tab_hits@.take(tab_hits@.len() as int) =~= tab_hits@);
    let ghost v = visible_tabs(tabs@, w@, tab_hits@);
    assert(visible@.len() == v.len());
    if visible.len() == 0 {
        return None;
    }
    let (first_index, first_rect) = visible[0];
    let (last_index, last_rect) = visible[visible.len() - 1];
    assert(visible@[visible@.len() - 1].0 < tabs@.len());
    assert(v[0] == (first_index as int, first_rect));
    assert(v.last() == (last_index as int, last_rect));
    if point.1 != first_rect.y {
        return None;
    }
    if contains(tab_scroll_left, point) {
        return Some(0);
    }
    if contains(tab_scroll_right, point) {
        return Some(n);
    }
    let left_edge = if first_index == 0 {
        first_rect.x
    } else {
        tab_scroll_left.right()
    };
    let right_edge = if last_index + 1 >= n {
        last_rect.right()
    } else {
        tab_scroll_right.x.saturating_sub(1)
    };
    if point.0 <= left_edge {
        return Some(first_index);
    }
    if point.0 >= right_edge {
        return Some(last_index + 1);
    }
    let ghost target = tab_drop_index(*snapshot, tab_hits@, tab_scroll_left, tab_scroll_right, point);
    assert(target == match scan_tabs(v, point.0) {
        Some(r) => Some(r),
        None => Some(last_index as int + 1),
    });
    let mut m: usize = 0;
    while m < visible.len()
        invariant
            m <= visible@.len(),
            visible@.len() == v.len(),
            v == visible@.map_values(|e: (usize, Rect)| (e.0 as int, e.1)),
            forall|q: int| 0 <= q < visible@.len() ==> (#[trigger] visible@[q]).0 < tabs@.len(),
            forall|q: int|
                0 <= q < visible@.len() ==> (#[trigger] visible@[q]).1.x + visible@[q].1.width
                    <= u16::MAX,
            scan_tabs(v.take(m as int), point.0) is None,
            tabs@.len() == tabs_len,
            last_index < tabs_len,
            target == tab_drop_index(*snapshot, tab_hits@, tab_scroll_left, tab_scroll_right, point),
            target == match scan_tabs(v, point.0) {
                Some(r) => Some(r),
                None => Some(last_index as int + 1),
            },
        decreases visible@.len() - m,
    {
        assert(v.take(m + 1).drop_last() =~= v.take(m as int));
        let (index, rect) = visible[m];
        assert(v.take(m + 1).last() == (index as int, rect));
        assert(visible@[m as int].0 < tabs@.len());
        assert(visible@[m as int].1.x + visible@[m as int].1.width <= u16::MAX);
        let midpoint = rect.x + rect.width / 2;
        if point.0 < midpoint {
            proof {
                lemma_scan_prefix(v, m + 1, point.0);
            }
            return Some(index);
        }
        if point.0 < rect.right() {
            proof {
                lemma_scan_prefix(v, m + 1, point.0);
            }
            return Some(index + 1);
        }
        m = m + 1;
    }
    assert(v.take(v.len() as int) =~= v);
    Some(last_index + 1)
}

/// A tab of workspace `w` at `p` has fewer tabs of `w` before it than `w` has.
proof fn lemma_tab_count_before(tabs: Seq<ClientShellTab>, w: Seq<char>, p: int)
    requires
        0 <= p < tabs.len(),
        in_workspace(tabs[p], w),
    ensures
        tab_count(tabs.take(p), w) < tab_count(tabs, w),
    decreases tabs.len(),
{
    if p == tabs.len() - 1 {
        assert(tabs.take(p) =~= tabs.drop_last());
    } else {
        assert(tabs.drop_last().take(p) =~= tabs.take(p));
        lemma_tab_count_before(tabs.drop_last(), w, p);
    }
}

/// Every drawn tab's position is that of a tab of `w`.
proof fn lemma_visible_in_range(tabs: Seq<ClientShellTab>, w: Seq<char>, hits: Seq<(Rect, String)>)
    ensures
        forall|k: int|
            0 <= k < visible_tabs(tabs, w, hits).len() ==> 0 <= (#[trigger] visible_tabs(
                tabs,
                w,
                hits,
            )[k]).0 < tab_count(tabs, w),
    decreases hits.len(),
{
    if hits.len() > 0 {
        lemma_visible_in_range(tabs, w, hits.drop_last());
        let id = hits.last().1@;
        let rest = visible_tabs(tabs, w, hits.drop_last());
        let all = visible_tabs(tabs, w, hits);
        if has_tab(tabs, w, id) {
            lemma_tab_count_before(tabs, w, first_tab(tabs, w, id));
        }
        assert forall|k: int| 0 <= k < all.len() implies 0 <= (#[trigger] all[k]).0 < tab_count(tabs, w) by {
            if k < rest.len() {
                assert(all[k] == rest[k]);
            }
        }
    }
}

/// The scan settles on a position next to a drawn tab.
proof fn lemma_scan_in_range(v: Seq<(int, Rect)>, x: u16, n: int)
    requires
        forall|k: int| 0 <= k < v.len() ==> 0 <= (#[trigger] v[k]).0 < n,
    ensures
        scan_tabs(v, x) matches Some(r) ==> 0 <= r <= n,
    decreases v.len(),
{
    if v.len() > 0 {
        assert forall|k: int| 0 <= k < v.drop_last().len() implies 0 <= (#[trigger] v.drop_last()[k]).0 < n by {
            assert(v.drop_last()[k] == v[k]);
        }
        lemma_scan_in_range(v.drop_last(), x, n);
        assert(v.last() == v[v.len() - 1]);
    }
}

/// A dropped tab lands among the tabs of the focused workspace: the index is at
/// most their number.
pub proof fn lemma_tab_drop_in_range(
    snapshot: ClientShellSnapshot,
    hits: Seq<(Rect, String)>,
    left: Rect,
    right: Rect,
    point: (u16, u16),
)
    ensures
        match tab_drop_index(snapshot, hits, left, right, point) {
            Some(i) => 0 <= i <= tab_count(snapshot.tabs@, snapshot.focused_workspace_id->0@),
            None => true,
        },
{
    if let Some(ws) = snapshot.focused_workspace_id {
        let tabs = snapshot.tabs@;
        let w = ws@;
        lemma_visible_in_range(tabs, w, hits);
        let v = visible_tabs(tabs, w, hits);
        lemma_scan_in_range(v, point.0, tab_count(tabs, w) as int);
        if v.len() > 0 {
            assert(v[0] == v[0]);
            assert(v.last() == v[v.len() - 1]);
        }
    }
}

} // verus!
