//! Copy mode as the client shell draws it over a pane: whether the pane surface
//! still shows what copy mode measured, and which cells its search matches cover.
use vstd::prelude::*;

use crate::geometry::{sat_add, sat_sub, Rect};
use crate::text::str_equal;

verus! {

/// How far a pane is scrolled back, in rows.
#[derive(Clone, Copy, Debug, PartialEq, Eq, Structural)]
pub struct ScrollMetrics {
    pub offset_from_bottom: usize,
    pub max_offset_from_bottom: usize,
}

/// Where a pane stands on the drawn surface.
#[derive(Clone, Debug)]
pub struct PaneHit {
    pub rect: Rect,
    /// The pane's content, inside its border.
    pub inner_rect: Rect,
    pub pane_id: String,
    pub mouse_reporting: bool,
    pub sgr_pixel_mouse: bool,
    pub pixel_width: u32,
    pub pixel_height: u32,
    /// The scroll position the surface was drawn at, when known.
    pub scroll: Option<ScrollMetrics>,
}

/// A cell of the pane's text: an absolute row (counted from the top of the
/// scrollback) and a column.
#[derive(Clone, Copy, Debug, PartialEq, Eq, Structural)]
pub struct TextPoint {
    pub row: u32,
    pub col: u16,
}

/// A search match, from its first cell to its last, both included.
#[derive(Clone, Copy, Debug, PartialEq, Eq, Structural)]
pub struct TextMatch {
    pub start: TextPoint,
    pub end: TextPoint,
}

/// The client's copy-mode state of one pane.
#[derive(Debug)]
pub struct ClientCopyModeState {
    pub pane_id: String,
    /// The pane's content size (columns, rows) copy mode measured.
    pub geometry: (u16, u16),
    pub offset_from_bottom: usize,
    pub max_offset_from_bottom: usize,
    pub search_matches: Vec<TextMatch>,
    /// The match the cursor is on.
    pub search_current: Option<usize>,
}

/// Whether copy mode applies to the pane `hit`.
pub open spec fn copy_mode_on(copy_mode: Option<ClientCopyModeState>, hit: PaneHit) -> bool {
    match copy_mode {
        Some(c) => c.pane_id@ == hit.pane_id@,
        None => false,
    }
}

/// Whether the pane surface agrees with copy mode: when copy mode is on the pane,
/// the pane has the measured size and was drawn at copy mode's scroll position.
pub open spec fn spec_copy_surface_coherent(copy_mode: Option<ClientCopyModeState>, hit: PaneHit) -> bool {
    match copy_mode {
        Some(c) => c.pane_id@ == hit.pane_id@ ==> {
            &&& c.geometry == (hit.inner_rect.width, hit.inner_rect.height)
            &&& match hit.scroll {
                Some(s) => s.offset_from_bottom == c.offset_from_bottom && s.max_offset_from_bottom
                    == c.max_offset_from_bottom,
                None => false,
            }
        },
        None => true,
    }
}

/// Whether the pane surface agrees with copy mode (always, when copy mode is not
/// on this pane).
pub fn client_copy_surface_coherent(copy_mode: Option<&ClientCopyModeState>, hit: &PaneHit) -> (r: bool)
    ensures
        r == spec_copy_surface_coherent(
            match copy_mode {
                Some(c) => Some(*c),
                None => None,
            },
            *hit,
        ),
{
    match copy_mode {
        None => true,
        Some(c) => {
            if !str_equal(c.pane_id.as_str(), hit.pane_id.as_str()) {
                return true;
            }
            c.geometry.0 == hit.inner_rect.width && c.geometry.1 == hit.inner_rect.height && match hit.scroll {
                Some(s) => s.offset_from_bottom == c.offset_from_bottom && s.max_offset_from_bottom
                    == c.max_offset_from_bottom,
                None => false,
            }
        },
    }
}

/// The absolute row at the top of the pane in copy mode, capped at `u32::MAX`.
pub open spec fn view_top(c: ClientCopyModeState) -> u32 {
    let back = if c.max_offset_from_bottom >= c.offset_from_bottom {
        c.max_offset_from_bottom - c.offset_from_bottom
    } else {
        0
    };
    if back > u32::MAX {
        u32::MAX
    } else {
        back as u32
    }
}

/// The absolute row at the bottom of the pane, saturated at `u32::MAX`.
pub open spec fn view_bottom(c: ClientCopyModeState, inner: Rect) -> u32 {
    let b = view_top(c) + sat_sub(inner.height, 1);
    if b > u32::MAX {
        u32::MAX
    } else {
        b as u32
    }
}

/// The cells match `m` covers on absolute row `r`, left to right.
pub open spec fn row_cells(inner: Rect, m: TextMatch, top: u32, r: int) -> Seq<(u16, u16)> {
    let last = sat_sub(inner.width, 1) as int;
    let first_col: int = if r == m.start.row {
        m.start.col as int
    } else {
        0
    };
    let end_col: int = if r == m.end.row {
        m.end.col as int
    } else {
        last
    };
    let last_col: int = if end_col < last {
        end_col
    } else {
        last
    };
    let count: int = if last_col >= first_col {
        last_col - first_col + 1
    } else {
        0
    };
    Seq::new(
        count as nat,
        |k: int| (sat_add(inner.x, (first_col + k) as u16), sat_add(inner.y, (r - top) as u16)),
    )
}

/// The cells match `m` covers on the absolute rows `from..=to`, row by row.
pub open spec fn match_cells(inner: Rect, m: TextMatch, top: u32, from: int, to: int) -> Seq<(u16, u16)>
    decreases to - from + 1,
{
    if to < from {
        Seq::empty()
    } else {
        match_cells(inner, m, top, from, to - 1) + row_cells(inner, m, top, to)
    }
}

/// Whether the `index`-th match is drawn in this pass and reaches into the view.
pub open spec fn match_drawn(c: ClientCopyModeState, inner: Rect, index: int, current_only: bool) -> bool {
    let m = c.search_matches@[index];
    &&& (c.search_current == Some(index as usize)) == current_only
    &&& m.end.row >= view_top(c)
    &&& m.start.row <= view_bottom(c, inner)
}

/// The cells of the first `k` matches that this pass draws.
pub open spec fn matches_cells(c: ClientCopyModeState, inner: Rect, current_only: bool, k: int) -> Seq<(u16, u16)>
    decreases k,
{
    if k <= 0 {
        Seq::empty()
    } else {
        let prev = matches_cells(c, inner, current_only, k - 1);
        let m = c.search_matches@[k - 1];
        if match_drawn(c, inner, k - 1, current_only) {
            let top = view_top(c);
            let bottom = view_bottom(c, inner);
            let from: int = if m.start.row > top {
                m.start.row as int
            } else {
                top as int
            };
            let to: int = if m.end.row < bottom {
                m.end.row as int
            } else {
                bottom as int
            };
            prev + match_cells(inner, m, top, from, to)
        } else {
            prev
        }
    }
}

/// The cells the search highlight of pane `hit` covers: none unless copy mode is on
/// the pane and the pane shows a cell; else, for each match of this pass (the
/// current match alone, or all others), its cells on the rows in view, clipped to
/// the pane's width.
pub open spec fn spec_search_highlight_cells(
    copy_mode: Option<ClientCopyModeState>,
    hit: PaneHit,
    current_only: bool,
) -> Seq<(u16, u16)> {
    match copy_mode {
        Some(c) => if c.pane_id@ == hit.pane_id@ && !(hit.inner_rect.width == 0 || hit.inner_rect.height == 0) {
            matches_cells(c, hit.inner_rect, current_only, c.search_matches@.len() as int)
        } else {
            Seq::empty()
        },
        None => Seq::empty(),
    }
}

/// Appends the cells of `m` on absolute row `r`.
fn push_row_cells(inner: Rect, m: TextMatch, top: u32, r: u32, out: &mut Vec<(u16, u16)>)
    requires
        top <= r,
        r - top <= u16::MAX,
    ensures
        final(out)@ == old(out)@ + row_cells(inner, m, top, r as int),
{
    let last = inner.width.saturating_sub(1);
    let first_col: u16 = if r == m.start.row {
        m.start.col
    } else {
        0
    };
    let end_col: u16 = if r == m.end.row {
        m.end.col
    } else {
        last
    };
    let last_col = if end_col < last {
        end_col
    } else {
        last
    };
    let vrow: u16 = (r - top) as u16;
    let ghost cells = row_cells(inner, m, top, r as int);
    let ghost start = out@;
    let mut col: u32 = first_col as u32;
    while col <= last_col as u32
        invariant
            cells == row_cells(inner, m, top, r as int),
            vrow == r - top,
            out@ == start + cells.take(col - first_col),
            col >= first_col,
            last_col >= first_col ==> col <= last_col + 1,
            last_col < first_col ==> col == first_col,
            last_col == (if (if r == m.end.row { m.end.col } else { sat_sub(inner.width, 1) }) < sat_sub(
                inner.width,
                1,
            ) {
                if r == m.end.row { m.end.col } else { sat_sub(inner.width, 1) }
            } else {
                sat_sub(inner.width, 1)
            }),
            first_col == (if r == m.start.row { m.start.col } else { 0 }),
        decreases last_col as u32 + 1 - col,
    {
        let x = inner.x.saturating_add(col as u16);
        let y = inner.y.saturating_add(vrow);
        out.push((x, y));
        assert(cells.take(col - first_col + 1) =~= cells.take(col - first_col).push(cells[col - first_col]));
        col = col + 1;
    }
    assert(cells.take(cells.len() as int) =~= cells);
}

/// The cells the search highlight of pane `hit` covers in this pass: the current
/// match alone when `current_only`, else all other matches.
pub fn copy_search_highlight_cells(copy_mode: Option<&ClientCopyModeState>, hit: &PaneHit, current_only: bool) -> (r: Vec<(u16, u16)>)
    ensures
        r@ == spec_search_highlight_cells(
            match copy_mode {
                Some(c) => Some(*c),
                None => None,
            },
            *hit,
            current_only,
        ),
{
    let mut out: Vec<(u16, u16)> = Vec::new();
    let c = match copy_mode {
        Some(c) => c,
        None => return out,
    };
    if !str_equal(c.pane_id.as_str(), hit.pane_id.as_str()) || hit.inner_rect.is_empty() {
        return out;
    }
    let inner = hit.inner_rect;
    let back = c.max_offset_from_bottom.saturating_sub(c.offset_from_bottom);
    let top: u32 = if back > u32::MAX as usize {
        u32::MAX
    } else {
        back as u32
    };
    let bottom: u32 = top.saturating_add(inner.height.saturating_sub(1) as u32);
    let mut index: usize = 0;
    while index < c.search_matches.len()
        invariant
            index <= c.search_matches@.len(),
            inner == hit.inner_rect,
            top == view_top(*c),
            bottom == view_bottom(*c, inner),
            out@ == matches_cells(*c, inner, current_only, index as int),
        decreases c.search_matches@.len() - index,
    {
        let m = c.search_matches[index];
        let is_current = match c.search_current {
            Some(i) => i == index,
            None => false,
        };
        if is_current == current_only && m.end.row >= top && m.start.row <= bottom {
            let from = if m.start.row > top {
                m.start.row
            } else {
                top
            };
            let to = if m.end.row < bottom {
                m.end.row
            } else {
                bottom
            };
            let ghost base = out@;
            let mut r: u64 = from as u64;
            while r <= to as u64
                invariant
                    from <= r,
                    r <= to as u64 + 1 || r == from,
                    top <= from,
                    to <= bottom,
                    bottom == view_bottom(*c, inner),
                    bottom - top <= u16::MAX,
                    out@ == base + match_cells(inner, m, top, from as int, r - 1),
                decreases to as u64 + 1 - r,
            {
                push_row_cells(inner, m, top, r as u32, &mut out);
                r = r + 1;
            }
            assert(out@ == base + match_cells(inner, m, top, from as int, to as int));
        }
        index = index + 1;
    }
    out
}

proof fn lemma_row_cells_inside(inner: Rect, m: TextMatch, top: u32, r: int)
    requires
        inner.x + inner.width <= u16::MAX,
        inner.y + inner.height <= u16::MAX,
        inner.width > 0,
        top <= r,
        r - top < inner.height,
    ensures
        forall|k: int| 0 <= k < row_cells(inner, m, top, r).len() ==> crate::geometry::spec_contains(
            inner,
            #[trigger] row_cells(inner, m, top, r)[k],
        ),
{
}

proof fn lemma_match_cells_inside(inner: Rect, m: TextMatch, top: u32, from: int, to: int)
    requires
        inner.x + inner.width <= u16::MAX,
        inner.y + inner.height <= u16::MAX,
        inner.width > 0,
        top <= from,
        to - top < inner.height,
    ensures
        forall|k: int| 0 <= k < match_cells(inner, m, top, from, to).len() ==> crate::geometry::spec_contains(
            inner,
            #[trigger] match_cells(inner, m, top, from, to)[k],
        ),
    decreases to - from + 1,
{
    if to >= from {
        lemma_match_cells_inside(inner, m, top, from, to - 1);
        lemma_row_cells_inside(inner, m, top, to);
        let prev = match_cells(inner, m, top, from, to - 1);
        let row = row_cells(inner, m, top, to);
        assert forall|k: int| 0 <= k < match_cells(inner, m, top, from, to).len() implies crate::geometry::spec_contains(
            inner,
            #[trigger] match_cells(inner, m, top, from, to)[k],
        ) by {
            if k < prev.len() {
                assert(match_cells(inner, m, top, from, to)[k] == prev[k]);
            } else {
                assert(match_cells(inner, m, top, from, to)[k] == row[k - prev.len()]);
            }
        }
    }
}

proof fn lemma_matches_cells_inside(c: ClientCopyModeState, inner: Rect, current_only: bool, n: int)
    requires
        inner.x + inner.width <= u16::MAX,
        inner.y + inner.height <= u16::MAX,
        inner.width > 0,
        inner.height > 0,
        n <= c.search_matches@.len(),
    ensures
        forall|k: int| 0 <= k < matches_cells(c, inner, current_only, n).len() ==> crate::geometry::spec_contains(
            inner,
            #[trigger] matches_cells(c, inner, current_only, n)[k],
        ),
    decreases n,
{
    if n > 0 {
        lemma_matches_cells_inside(c, inner, current_only, n - 1);
        let prev = matches_cells(c, inner, current_only, n - 1);
        let m = c.search_matches@[n - 1];
        if match_drawn(c, inner, n - 1, current_only) {
            let top = view_top(c);
            let bottom = view_bottom(c, inner);
            let from: int = if m.start.row > top { m.start.row as int } else { top as int };
            let to: int = if m.end.row < bottom { m.end.row as int } else { bottom as int };
            lemma_match_cells_inside(inner, m, top, from, to);
            let more = match_cells(inner, m, top, from, to);
            assert forall|k: int| 0 <= k < matches_cells(c, inner, current_only, n).len() implies crate::geometry::spec_contains(
                inner,
                #[trigger] matches_cells(c, inner, current_only, n)[k],
            ) by {
                if k < prev.len() {
                    assert(matches_cells(c, inner, current_only, n)[k] == prev[k]);
                } else {
                    assert(matches_cells(c, inner, current_only, n)[k] == more[k - prev.len()]);
                }
            }
        }
    }
}

/// The search highlight never leaves the pane: every highlighted cell lies in the
/// pane's content rectangle (one that does not run past the last cell).
pub proof fn lemma_highlights_stay_in_the_pane(copy_mode: Option<ClientCopyModeState>, hit: PaneHit, current_only: bool)
    requires
        hit.inner_rect.x + hit.inner_rect.width <= u16::MAX,
        hit.inner_rect.y + hit.inner_rect.height <= u16::MAX,
    ensures
        forall|k: int| 0 <= k < spec_search_highlight_cells(copy_mode, hit, current_only).len() ==> crate::geometry::spec_contains(
            hit.inner_rect,
            #[trigger] spec_search_highlight_cells(copy_mode, hit, current_only)[k],
        ),
{
    if let Some(c) = copy_mode {
        if c.pane_id@ == hit.pane_id@ && !(hit.inner_rect.width == 0 || hit.inner_rect.height == 0) {
            lemma_matches_cells_inside(c, hit.inner_rect, current_only, c.search_matches@.len() as int);
        }
    }
}

} // verus!
