//! Rectangles of terminal cells and the layout helpers of the shell's popups.
//!
//! `Rect` follows the semantics of a terminal UI rectangle: construction clamps
//! the extent so that the far edge fits in `u16`, and the far edges saturate.
use vstd::prelude::*;

verus! {

/// `a + b`, saturated at `u16::MAX`.
pub open spec fn sat_add(a: u16, b: u16) -> u16 {
    if a + b > u16::MAX {
        u16::MAX
    } else {
        (a + b) as u16
    }
}

/// `a - b`, saturated at zero.
pub open spec fn sat_sub(a: u16, b: u16) -> u16 {
    if a < b {
        0
    } else {
        (a - b) as u16
    }
}

pub open spec fn min_u16(a: u16, b: u16) -> u16 {
    if a < b {
        a
    } else {
        b
    }
}

/// An extent starting at `origin`, cut so that `origin + extent` fits in `u16`.
pub open spec fn clamp_extent(origin: u16, extent: u16) -> u16 {
    if extent > u16::MAX - origin {
        (u16::MAX - origin) as u16
    } else {
        extent
    }
}

/// A rectangle of terminal cells: its top-left corner and its extent.
#[derive(Clone, Copy, Debug, PartialEq, Eq, Structural)]
pub struct Rect {
    pub x: u16,
    pub y: u16,
    pub width: u16,
    pub height: u16,
}

/// The rectangle that [`Rect::new`] builds.
pub open spec fn spec_rect(x: u16, y: u16, width: u16, height: u16) -> Rect {
    Rect { x, y, width: clamp_extent(x, width), height: clamp_extent(y, height) }
}

impl Rect {
    pub open spec fn spec_right(self) -> u16 {
        sat_add(self.x, self.width)
    }

    pub open spec fn spec_bottom(self) -> u16 {
        sat_add(self.y, self.height)
    }

    /// A rectangle at `(x, y)`; the extent is cut so the far edges fit in `u16`.
    pub fn new(x: u16, y: u16, width: u16, height: u16) -> (r: Rect)
        ensures
            r == spec_rect(x, y, width, height),
    {
        let max_width = u16::MAX - x;
        let max_height = u16::MAX - y;
        let width = if width > max_width {
            max_width
        } else {
            width
        };
        let height = if height > max_height {
            max_height
        } else {
            height
        };
        Rect { x, y, width, height }
    }

    /// The first column right of the rectangle, saturated at `u16::MAX`.
    pub fn right(&self) -> (r: u16)
        ensures
            r == self.spec_right(),
    {
        self.x.saturating_add(self.width)
    }

    /// The first row below the rectangle, saturated at `u16::MAX`.
    pub fn bottom(&self) -> (r: u16)
        ensures
            r == self.spec_bottom(),
    {
        self.y.saturating_add(self.height)
    }

    /// Whether the rectangle covers no cell.
    pub fn is_empty(&self) -> (r: bool)
        ensures
            r == (self.width == 0 || self.height == 0),
    {
        self.width == 0 || self.height == 0
    }
}

/// Whether the cell `point` (column, row) lies in `rect`.
pub open spec fn spec_contains(rect: Rect, point: (u16, u16)) -> bool {
    &&& rect.width > 0
    &&& rect.height > 0
    &&& point.0 >= rect.x
    &&& point.0 < rect.spec_right()
    &&& point.1 >= rect.y
    &&& point.1 < rect.spec_bottom()
}

/// Whether the cell `point` (column, row) lies in `rect`.
pub fn contains(rect: Rect, point: (u16, u16)) -> (r: bool)
    ensures
        r == spec_contains(rect, point),
{
    rect.width > 0 && rect.height > 0 && point.0 >= rect.x && point.0 < rect.right()
        && point.1 >= rect.y && point.1 < rect.bottom()
}

/// The width a popup of requested width `w` gets in `area`: four columns of margin.
pub open spec fn popup_width(area: Rect, w: u16) -> u16 {
    min_u16(w, sat_sub(area.width, 4))
}

/// The height a popup of requested height `h` gets in `area`: two rows of margin.
pub open spec fn popup_height(area: Rect, h: u16) -> u16 {
    min_u16(h, sat_sub(area.height, 2))
}

/// Whether a popup is shown at all: it needs at least four cells each way.
pub open spec fn popup_shown(area: Rect, w: u16, h: u16) -> bool {
    popup_width(area, w) >= 4 && popup_height(area, h) >= 4
}

/// The popup centred in `area`, if it is shown.
pub open spec fn spec_popup(area: Rect, w: u16, h: u16) -> Option<Rect> {
    let pw = popup_width(area, w);
    let ph = popup_height(area, h);
    if popup_shown(area, w, h) {
        Some(
            spec_rect(
                (area.x + (area.width - pw) / 2) as u16,
                (area.y + (area.height - ph) / 2) as u16,
                pw,
                ph,
            ),
        )
    } else {
        None
    }
}

/// The inside of a bordered panel `q`, when it is two cells each way at least.
pub open spec fn panel_inner(q: Rect) -> Option<Rect> {
    if q.width < 2 || q.height < 2 {
        None
    } else {
        Some(spec_rect((q.x + 1) as u16, (q.y + 1) as u16, (q.width - 2) as u16, (q.height - 2) as u16))
    }
}

/// A popup of at most `w` by `h` cells centred in `area`, keeping a margin of two
/// columns and one row on each side; `None` when less than four by four cells
/// would remain.
pub fn popup(area: Rect, w: u16, h: u16) -> (r: Option<Rect>)
    requires
        popup_shown(area, w, h) ==> area.x + (area.width - popup_width(area, w)) / 2 <= u16::MAX
            && area.y + (area.height - popup_height(area, h)) / 2 <= u16::MAX,
    ensures
        r == spec_popup(area, w, h),
{
    let w = if w < area.width.saturating_sub(4) {
        w
    } else {
        area.width.saturating_sub(4)
    };
    let h = if h < area.height.saturating_sub(2) {
        h
    } else {
        area.height.saturating_sub(2)
    };
    if w < 4 || h < 4 {
        return None;
    }
    Some(Rect::new(area.x + (area.width - w) / 2, area.y + (area.height - h) / 2, w, h))
}

/// The sum of the widths `ws`.
pub open spec fn width_sum(ws: Seq<u16>) -> int
    decreases ws.len(),
{
    if ws.len() == 0 {
        0
    } else {
        width_sum(ws.drop_last()) + ws.last()
    }
}

/// The width a row of buttons of widths `ws` takes, with `gap` columns between them.
/// The button count is taken modulo 2^16, as the computation does.
pub open spec fn row_total(ws: Seq<u16>, gap: u16) -> int {
    width_sum(ws) + gap * (if ws.len() == 0 {
        0
    } else {
        (ws.len() - 1) % 0x1_0000
    })
}

/// The column where the `k`-th button of a centred row starts.
pub open spec fn row_x(inner: Rect, ws: Seq<u16>, gap: u16, k: int) -> int {
    inner.x + sat_sub(inner.width, row_total(ws, gap) as u16) / 2 + width_sum(ws.take(k)) + gap * k
}

/// The row the buttons stand on: `off` rows down, but inside `inner`.
pub open spec fn row_y(inner: Rect, off: u16) -> int {
    inner.y + min_u16(off, sat_sub(inner.height, 1))
}

/// The `k`-th button of the row.
pub open spec fn row_button(inner: Rect, ws: Seq<u16>, gap: u16, off: u16, k: int) -> Rect {
    let x = row_x(inner, ws, gap, k) as u16;
    spec_rect(x, row_y(inner, off) as u16, min_u16(ws[k], sat_sub(inner.width, (x - inner.x) as u16)), 1)
}

/// Whether [`row`] stays inside `u16` on these inputs.
pub open spec fn row_fits(inner: Rect, ws: Seq<u16>, gap: u16, off: u16) -> bool {
    &&& row_total(ws, gap) <= u16::MAX
    &&& row_x(inner, ws, gap, ws.len() as int) <= u16::MAX
    &&& ws.len() > 0 ==> row_y(inner, off) <= u16::MAX
}

proof fn lemma_width_sum_take(ws: Seq<u16>, k: int)
    requires
        0 <= k < ws.len(),
    ensures
        width_sum(ws.take(k + 1)) == width_sum(ws.take(k)) + ws[k],
{
    assert(ws.take(k + 1).drop_last() =~= ws.take(k));
}

proof fn lemma_width_sum_prefix(ws: Seq<u16>, k: int)
    requires
        0 <= k <= ws.len(),
    ensures
        0 <= width_sum(ws.take(k)) <= width_sum(ws),
    decreases ws.len() - k,
{
    if k == ws.len() {
        assert(ws.take(k) =~= ws);
        lemma_width_sum_nonneg(ws);
    } else {
        lemma_width_sum_prefix(ws, k + 1);
        lemma_width_sum_take(ws, k);
        lemma_width_sum_nonneg(ws.take(k));
    }
}

proof fn lemma_width_sum_nonneg(ws: Seq<u16>)
    ensures
        width_sum(ws) >= 0,
    decreases ws.len(),
{
    if ws.len() > 0 {
        lemma_width_sum_nonneg(ws.drop_last());
    }
}

/// Buttons of widths `ws` side by side, `gap` columns apart, the row centred in
/// `inner` and `off` rows down (kept inside `inner`); a button is cut at the right
/// edge of `inner`.
pub fn row(inner: Rect, ws: &[u16], gap: u16, off: u16) -> (r: Vec<Rect>)
    requires
        row_fits(inner, ws@, gap, off),
    ensures
        r@.len() == ws@.len(),
        forall|k: int| 0 <= k < ws@.len() ==> r@[k] == row_button(inner, ws@, gap, off, k),
{
    let n = ws.len();
    let mut sum: u16 = 0;
    let mut i: usize = 0;
    while i < n
        invariant
            n == ws@.len(),
            i <= n,
            sum == width_sum(ws@.take(i as int)),
            row_total(ws@, gap) <= u16::MAX,
        decreases n - i,
    {
        proof {
            lemma_width_sum_take(ws@, i as int);
            lemma_width_sum_prefix(ws@, i as int + 1);
            lemma_width_sum_nonneg(ws@);
            assert(gap * (if ws@.len() == 0 { 0 } else { (ws@.len() - 1) % 0x1_0000 }) >= 0) by (nonlinear_arith);
        }
        sum = sum + ws[i];
        i = i + 1;
    }
    assert(ws@.take(n as int) =~= ws@);
    let count: u16 = if n == 0 {
        0
    } else {
        ((n - 1) % 0x1_0000) as u16
    };
    assert(gap * count <= u16::MAX) by (nonlinear_arith)
        requires
            sum + gap * count <= u16::MAX,
            sum >= 0,
    ;
    let total: u16 = sum + gap * count;
    proof {
        assert(ws@.take(0) =~= Seq::<u16>::empty());
        lemma_row_x_monotone(inner, ws@, gap, 0, n as int);
    }
    let mut x: u16 = inner.x + inner.width.saturating_sub(total) / 2;
    let y_off: u16 = if off < inner.height.saturating_sub(1) {
        off
    } else {
        inner.height.saturating_sub(1)
    };
    let mut out: Vec<Rect> = Vec::new();
    let mut k: usize = 0;
    while k < n
        invariant
            n == ws@.len(),
            k <= n,
            total == row_total(ws@, gap),
            row_fits(inner, ws@, gap, off),
            y_off == min_u16(off, sat_sub(inner.height, 1)),
            x == row_x(inner, ws@, gap, k as int),
            out@.len() == k,
            forall|j: int| 0 <= j < k ==> out@[j] == row_button(inner, ws@, gap, off, j),
        decreases n - k,
    {
        proof {
            lemma_width_sum_take(ws@, k as int);
            lemma_width_sum_prefix(ws@, k as int + 1);
            lemma_row_x_step(inner, ws@, gap, k as int);
            lemma_row_x_monotone(inner, ws@, gap, k as int + 1, n as int);
        }
        let w = ws[k];
        let avail = inner.width.saturating_sub(x - inner.x);
        let bw = if w < avail {
            w
        } else {
            avail
        };
        let r = Rect::new(x, inner.y + y_off, bw, 1);
        out.push(r);
        x = x + (w + gap);
        k = k + 1;
    }
    out
}

proof fn lemma_row_x_monotone(inner: Rect, ws: Seq<u16>, gap: u16, a: int, b: int)
    requires
        0 <= a <= b <= ws.len(),
    ensures
        row_x(inner, ws, gap, a) <= row_x(inner, ws, gap, b),
    decreases b - a,
{
    if a < b {
        lemma_row_x_step(inner, ws, gap, a);
        lemma_row_x_monotone(inner, ws, gap, a + 1, b);
    }
}

proof fn lemma_row_x_step(inner: Rect, ws: Seq<u16>, gap: u16, k: int)
    requires
        0 <= k < ws.len(),
    ensures
        row_x(inner, ws, gap, k + 1) == row_x(inner, ws, gap, k) + ws[k] + gap,
        row_x(inner, ws, gap, k) >= inner.x,
{
    lemma_width_sum_take(ws, k);
    lemma_width_sum_nonneg(ws.take(k));
    assert(gap * (k + 1) == gap * k + gap) by (nonlinear_arith);
    assert(gap * k >= 0) by (nonlinear_arith)
        requires
            k >= 0,
    ;
}

/// A popup stays inside its area with its margin: two columns and one row clear on
/// every side, and at least four by four cells.
pub proof fn lemma_popup_keeps_its_margin(area: Rect, w: u16, h: u16)
    requires
        area.x + area.width <= u16::MAX,
        area.y + area.height <= u16::MAX,
    ensures
        spec_popup(area, w, h) matches Some(r) ==> {
            &&& r.x >= area.x + 2
            &&& r.x + r.width + 2 <= area.x + area.width
            &&& r.y >= area.y + 1
            &&& r.y + r.height + 1 <= area.y + area.height
            &&& r.width >= 4
            &&& r.height >= 4
        },
{
}

} // verus!
